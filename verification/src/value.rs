//! The output values a parse can produce, and the fixed family of
//! output/error transformations a grammar can attach to a rule.
//!
//! The engine works over one concrete value algebra rather than a type
//! parameter per combinator: a transformation is named by an [`OutFn`] or
//! [`ErrFn`] and interpreted by [`eval_out`] / [`eval_err`], whose meaning
//! is pinned by the spec functions [`apply_out`] / [`apply_err`].
use vstd::prelude::*;

use crate::error::ErrModel;
use crate::error::SQLError;
use crate::sql_schema::SQLSchema;
use crate::sql_schema::SchemaModel;
use crate::sql_schema::schema_view;

verus! {

/// A parse output: the unit output of a literal, a slice of input text,
/// a pair from a sequence, a tagged choice result, a repetition's
/// accumulator, an integer, or a finished schema tree.
#[derive(Debug)]
pub enum Value {
    Unit,
    Int(i64),
    Str(String),
    Pair(Box<Value>, Box<Value>),
    Left(Box<Value>),
    Right(Box<Value>),
    List(Vec<Value>),
    Schema(SQLSchema),
}

/// The mathematical shape of a [`Value`].
pub enum ValModel {
    Unit,
    Int(i64),
    Str(Seq<char>),
    Pair(Box<ValModel>, Box<ValModel>),
    Left(Box<ValModel>),
    Right(Box<ValModel>),
    List(Seq<ValModel>),
    Schema(SchemaModel),
}

/// Recursive definition behind [`Value::deep_view`].
pub open spec fn val_view(v: Value) -> ValModel
    decreases v,
{
    match v {
        Value::Unit => ValModel::Unit,
        Value::Int(n) => ValModel::Int(n),
        Value::Str(s) => ValModel::Str(s@),
        Value::Pair(a, b) => ValModel::Pair(Box::new(val_view(*a)), Box::new(val_view(*b))),
        Value::Left(a) => ValModel::Left(Box::new(val_view(*a))),
        Value::Right(a) => ValModel::Right(Box::new(val_view(*a))),
        Value::List(vs) => ValModel::List(vals_view(vs@)),
        Value::Schema(s) => ValModel::Schema(schema_view(s)),
    }
}

/// Element-wise [`val_view`] over a sequence.
pub open spec fn vals_view(s: Seq<Value>) -> Seq<ValModel>
    decreases s,
{
    if s.len() == 0 {
        Seq::empty()
    } else {
        vals_view(s.drop_last()).push(val_view(s.last()))
    }
}

pub broadcast proof fn lemma_vals_view_len(s: Seq<Value>)
    ensures
        (#[trigger] vals_view(s)).len() == s.len(),
    decreases s,
{
    if s.len() > 0 {
        lemma_vals_view_len(s.drop_last());
    }
}

pub broadcast proof fn lemma_vals_view_index(s: Seq<Value>, i: int)
    requires
        0 <= i < s.len(),
    ensures
        #[trigger] vals_view(s)[i] == val_view(s[i]),
    decreases s,
{
    lemma_vals_view_len(s);
    if s.len() > 0 && i < s.len() - 1 {
        lemma_vals_view_len(s.drop_last());
        lemma_vals_view_index(s.drop_last(), i);
    }
}

pub proof fn lemma_vals_view_pointwise(a: Seq<Value>, b: Seq<Value>)
    requires
        a.len() == b.len(),
        forall|i: int| 0 <= i < a.len() ==> val_view(a[i]) == val_view(b[i]),
    ensures
        vals_view(a) == vals_view(b),
{
    lemma_vals_view_len(a);
    lemma_vals_view_len(b);
    assert forall|i: int| 0 <= i < a.len() implies vals_view(a)[i] == vals_view(b)[i] by {
        lemma_vals_view_index(a, i);
        lemma_vals_view_index(b, i);
    }
    assert(vals_view(a) =~= vals_view(b));
}

pub proof fn lemma_vals_view_push(s: Seq<Value>, v: Value)
    ensures
        vals_view(s.push(v)) == vals_view(s).push(val_view(v)),
{
    assert(s.push(v).drop_last() =~= s);
    assert(s.push(v).last() == v);
}

impl DeepView for Value {
    type V = ValModel;

    open spec fn deep_view(&self) -> ValModel {
        val_view(*self)
    }
}

fn clone_vals(v: &Vec<Value>) -> (r: Vec<Value>)
    ensures
        vals_view(r@) == vals_view(v@),
    decreases v@,
{
    let mut out: Vec<Value> = Vec::new();
    let mut i: usize = 0;
    while i < v.len()
        invariant
            i <= v.len(),
            out@.len() == i as int,
            forall|j: int| 0 <= j < i ==> val_view(out@[j]) == val_view(v@[j]),
        decreases v.len() - i,
    {
        proof {
            assert(decreases_to!(v@ => v@[i as int]));
        }
        out.push(v[i].clone());
        i = i + 1;
    }
    proof {
        lemma_vals_view_pointwise(out@, v@);
    }
    out
}

impl Clone for Value {
    fn clone(&self) -> (r: Value)
        ensures
            r.deep_view() == self.deep_view(),
        decreases *self,
    {
        match self {
            Value::Unit => Value::Unit,
            Value::Int(n) => Value::Int(*n),
            Value::Str(s) => Value::Str(s.clone()),
            Value::Pair(a, b) => Value::Pair(Box::new((**a).clone()), Box::new((**b).clone())),
            Value::Left(a) => Value::Left(Box::new((**a).clone())),
            Value::Right(a) => Value::Right(Box::new((**a).clone())),
            Value::List(vs) => {
                proof {
                    assert(decreases_to!(*self => self->List_0));
                    assert(decreases_to!(self->List_0 => self->List_0@));
                }
                Value::List(clone_vals(vs))
            },
            Value::Schema(s) => Value::Schema(s.clone()),
        }
    }
}

/// A named transformation of a successful output.
pub enum OutFn {
    /// Replace the output with the unit output.
    ToUnit,
    /// Remove the `Left`/`Right` tag of a choice output; anything else is
    /// passed through unchanged.
    UnwrapEither,
    /// Keep the first component of a pair.
    First,
    /// Keep the second component of a pair.
    Second,
    /// Turn `Pair(List l, x)` into `List (l + [x])`.
    ListPush,
    /// Replace the output with a fixed integer.
    ConstInt(i64),
    /// Turn `Pair(_, Int n)` into `Int (n + k)`, wrapping on overflow.
    SecondPlus(i64),
    /// Replace the output with a fixed schema.
    SchemaConst(SQLSchema),
    /// Turn a list of schemas into an anonymous tuple schema.
    SchemaTuple,
    /// Turn a list of `Pair(Str name, Schema s)` into a named tuple schema.
    SchemaNamed,
}

/// The mathematical shape of an [`OutFn`].
pub enum OutFnModel {
    ToUnit,
    UnwrapEither,
    First,
    Second,
    ListPush,
    ConstInt(i64),
    SecondPlus(i64),
    SchemaConst(SchemaModel),
    SchemaTuple,
    SchemaNamed,
}

impl DeepView for OutFn {
    type V = OutFnModel;

    open spec fn deep_view(&self) -> OutFnModel {
        match self {
            OutFn::ToUnit => OutFnModel::ToUnit,
            OutFn::UnwrapEither => OutFnModel::UnwrapEither,
            OutFn::First => OutFnModel::First,
            OutFn::Second => OutFnModel::Second,
            OutFn::ListPush => OutFnModel::ListPush,
            OutFn::ConstInt(k) => OutFnModel::ConstInt(*k),
            OutFn::SecondPlus(k) => OutFnModel::SecondPlus(*k),
            OutFn::SchemaConst(s) => OutFnModel::SchemaConst(schema_view(*s)),
            OutFn::SchemaTuple => OutFnModel::SchemaTuple,
            OutFn::SchemaNamed => OutFnModel::SchemaNamed,
        }
    }
}

impl Clone for OutFn {
    fn clone(&self) -> (r: OutFn)
        ensures
            r.deep_view() == self.deep_view(),
    {
        match self {
            OutFn::ToUnit => OutFn::ToUnit,
            OutFn::UnwrapEither => OutFn::UnwrapEither,
            OutFn::First => OutFn::First,
            OutFn::Second => OutFn::Second,
            OutFn::ListPush => OutFn::ListPush,
            OutFn::ConstInt(k) => OutFn::ConstInt(*k),
            OutFn::SecondPlus(k) => OutFn::SecondPlus(*k),
            OutFn::SchemaConst(s) => OutFn::SchemaConst(s.clone()),
            OutFn::SchemaTuple => OutFn::SchemaTuple,
            OutFn::SchemaNamed => OutFn::SchemaNamed,
        }
    }
}

/// A named transformation of a failure's error.  The failure's position
/// passes through the transform unchanged; the transform only receives
/// it, to build the diagnostic.
pub enum ErrFn {
    /// Forget the diagnostic.
    ToUnknown,
    /// Report a missing literal at the failure's own position.
    Mismatch(String),
}

/// The mathematical shape of an [`ErrFn`].
pub enum ErrFnModel {
    ToUnknown,
    Mismatch(Seq<char>),
}

impl DeepView for ErrFn {
    type V = ErrFnModel;

    open spec fn deep_view(&self) -> ErrFnModel {
        match self {
            ErrFn::ToUnknown => ErrFnModel::ToUnknown,
            ErrFn::Mismatch(s) => ErrFnModel::Mismatch(s@),
        }
    }
}

impl Clone for ErrFn {
    fn clone(&self) -> (r: ErrFn)
        ensures
            r.deep_view() == self.deep_view(),
    {
        match self {
            ErrFn::ToUnknown => ErrFn::ToUnknown,
            ErrFn::Mismatch(s) => ErrFn::Mismatch(s.clone()),
        }
    }
}

/// Every element is a schema.
pub open spec fn all_schema(s: Seq<ValModel>) -> bool {
    forall|i: int| 0 <= i < s.len() ==> s[i] is Schema
}

/// The schemas of a sequence of schema values.
pub open spec fn to_schemas(s: Seq<ValModel>) -> Seq<SchemaModel> {
    Seq::new(s.len(), |i: int| s[i]->Schema_0)
}

/// Every element is a pair of a string and a schema.
pub open spec fn all_named(s: Seq<ValModel>) -> bool {
    forall|i: int|
        0 <= i < s.len() ==> (#[trigger] s[i] matches ValModel::Pair(a, b) && *a is Str
            && *b is Schema)
}

/// The names of a sequence of named-field values.
pub open spec fn named_names(s: Seq<ValModel>) -> Seq<Seq<char>> {
    Seq::new(s.len(), |i: int| (*s[i]->Pair_0)->Str_0)
}

/// The schemas of a sequence of named-field values.
pub open spec fn named_schemas(s: Seq<ValModel>) -> Seq<SchemaModel> {
    Seq::new(s.len(), |i: int| (*s[i]->Pair_1)->Schema_0)
}

/// What [`eval_out`] returns: a total function on values, the identity
/// wherever the value does not have the shape the transformation expects.
pub open spec fn apply_out(f: OutFnModel, v: ValModel) -> ValModel {
    match f {
        OutFnModel::ToUnit => ValModel::Unit,
        OutFnModel::UnwrapEither => match v {
            ValModel::Left(a) => *a,
            ValModel::Right(a) => *a,
            _ => v,
        },
        OutFnModel::First => match v {
            ValModel::Pair(a, _) => *a,
            _ => v,
        },
        OutFnModel::Second => match v {
            ValModel::Pair(_, b) => *b,
            _ => v,
        },
        OutFnModel::ListPush => match v {
            ValModel::Pair(a, b) => match *a {
                ValModel::List(l) => ValModel::List(l.push(*b)),
                _ => v,
            },
            _ => v,
        },
        OutFnModel::ConstInt(k) => ValModel::Int(k),
        OutFnModel::SecondPlus(k) => match v {
            ValModel::Pair(_, b) => match *b {
                ValModel::Int(n) => ValModel::Int(n.wrapping_add(k)),
                _ => v,
            },
            _ => v,
        },
        OutFnModel::SchemaConst(s) => ValModel::Schema(s),
        OutFnModel::SchemaTuple => match v {
            ValModel::List(l) => if all_schema(l) {
                ValModel::Schema(SchemaModel::Tuple { tuple: to_schemas(l) })
            } else {
                v
            },
            _ => v,
        },
        OutFnModel::SchemaNamed => match v {
            ValModel::List(l) => if all_named(l) {
                ValModel::Schema(
                    SchemaModel::NamedTuple { name: named_names(l), tuple: named_schemas(l) },
                )
            } else {
                v
            },
            _ => v,
        },
    }
}

/// What [`eval_err`] returns.
pub open spec fn apply_err(f: ErrFnModel, at: int, e: ErrModel) -> ErrModel {
    match f {
        ErrFnModel::ToUnknown => ErrModel::Unknown,
        ErrFnModel::Mismatch(s) => ErrModel::MismatchToken(at, s),
    }
}

/// Apply an output transformation.
pub fn eval_out(f: &OutFn, v: Value) -> (r: Value)
    ensures
        r.deep_view() == apply_out(f.deep_view(), v.deep_view()),
{
    let ghost fm = f.deep_view();
    let ghost vm = v.deep_view();
    match f {
        OutFn::ToUnit => {
            let r = Value::Unit;
            proof { assert(r.deep_view() == apply_out(fm, vm)); }
            r
        },
        OutFn::UnwrapEither => match v {
            Value::Left(a) => {
                let r = *a;
                proof { assert(r.deep_view() == apply_out(fm, vm)); }
                r
            },
            Value::Right(a) => {
                let r = *a;
                proof { assert(r.deep_view() == apply_out(fm, vm)); }
                r
            },
            other => {
                let r = other;
                proof { assert(r.deep_view() == apply_out(fm, vm)); }
                r
            },
        },
        OutFn::First => match v {
            Value::Pair(a, _) => {
                let r = *a;
                proof { assert(r.deep_view() == apply_out(fm, vm)); }
                r
            },
            other => {
                let r = other;
                proof { assert(r.deep_view() == apply_out(fm, vm)); }
                r
            },
        },
        OutFn::Second => match v {
            Value::Pair(_, b) => {
                let r = *b;
                proof { assert(r.deep_view() == apply_out(fm, vm)); }
                r
            },
            other => {
                let r = other;
                proof { assert(r.deep_view() == apply_out(fm, vm)); }
                r
            },
        },
        OutFn::ListPush => match v {
            Value::Pair(a, b) => {
                proof {
                    assert(vm == ValModel::Pair(
                        Box::new(val_view(*a)),
                        Box::new(val_view(*b)),
                    ));
                }
                match *a {
                Value::List(mut l) => {
                    let ghost l0 = l@;
                    l.push(*b);
                    proof {
                        lemma_vals_view_push(l0, *b);
                    }
                    let r = Value::List(l);
                    proof { assert(r.deep_view() == apply_out(fm, vm)); }
                    r
                },
                other => {
                    let r = Value::Pair(Box::new(other), b);
                    proof { assert(r.deep_view() == apply_out(fm, vm)); }
                    r
                },
                }
            },
            other => {
                let r = other;
                proof { assert(r.deep_view() == apply_out(fm, vm)); }
                r
            },
        },
        OutFn::ConstInt(k) => {
            let r = Value::Int(*k);
            proof { assert(r.deep_view() == apply_out(fm, vm)); }
            r
        },
        OutFn::SecondPlus(k) => match v {
            Value::Pair(a, b) => {
                proof {
                    assert(vm == ValModel::Pair(
                        Box::new(val_view(*a)),
                        Box::new(val_view(*b)),
                    ));
                }
                match *b {
                Value::Int(n) => {
                    let r = Value::Int(n.wrapping_add(*k));
                    proof { assert(r.deep_view() == apply_out(fm, vm)); }
                    r
                },
                other => {
                    let r = Value::Pair(a, Box::new(other));
                    proof { assert(r.deep_view() == apply_out(fm, vm)); }
                    r
                },
                }
            },
            other => {
                let r = other;
                proof { assert(r.deep_view() == apply_out(fm, vm)); }
                r
            },
        },
        OutFn::SchemaConst(s) => {
            let r = Value::Schema(s.clone());
            proof { assert(r.deep_view() == apply_out(fm, vm)); }
            r
        },
        OutFn::SchemaTuple => match v {
            Value::List(l) => {
                let r = eval_schema_tuple(l);
                proof { assert(r.deep_view() == apply_out(fm, vm)); }
                r
            },
            other => {
                let r = other;
                proof { assert(r.deep_view() == apply_out(fm, vm)); }
                r
            },
        },
        OutFn::SchemaNamed => match v {
            Value::List(l) => {
                let r = eval_schema_named(l);
                proof { assert(r.deep_view() == apply_out(fm, vm)); }
                r
            },
            other => {
                let r = other;
                proof { assert(r.deep_view() == apply_out(fm, vm)); }
                r
            },
        },
    }
}

/// Collect a list of schema values into an anonymous tuple schema; a list
/// of any other shape is handed back unchanged.
fn eval_schema_tuple(l: Vec<Value>) -> (r: Value)
    ensures
        r.deep_view() == apply_out(OutFnModel::SchemaTuple, ValModel::List(vals_view(l@))),
{
    proof {
        lemma_vals_view_len(l@);
    }
    let mut out: Vec<SQLSchema> = Vec::new();
    let mut i: usize = 0;
    while i < l.len()
        invariant
            i <= l.len(),
            vals_view(l@).len() == l@.len(),
            out@.len() == i as int,
            forall|j: int| 0 <= j < i ==> vals_view(l@)[j] is Schema,
            forall|j: int|
                0 <= j < i ==> schema_view(out@[j]) == vals_view(l@)[j]->Schema_0,
        decreases l.len() - i,
    {
        proof {
            lemma_vals_view_index(l@, i as int);
        }
        match &l[i] {
            Value::Schema(s) => {
                out.push(s.clone());
            },
            _ => {
                proof {
                    assert(!all_schema(vals_view(l@)));
                }
                return Value::List(l);
            },
        }
        i = i + 1;
    }
    proof {
        assert(all_schema(vals_view(l@)));
        assert(crate::sql_schema::schemas_view(out@) =~= to_schemas(vals_view(l@))) by {
            crate::sql_schema::lemma_schemas_view_len(out@);
            assert forall|j: int| 0 <= j < out@.len() implies crate::sql_schema::schemas_view(
                out@,
            )[j] == to_schemas(vals_view(l@))[j] by {
                crate::sql_schema::lemma_schemas_view_index(out@, j);
            }
        }
    }
    Value::Schema(SQLSchema::Tuple { tuple: out })
}

/// Collect a list of `Pair(Str name, Schema s)` values into a named tuple
/// schema; a list of any other shape is handed back unchanged.
fn eval_schema_named(l: Vec<Value>) -> (r: Value)
    ensures
        r.deep_view() == apply_out(OutFnModel::SchemaNamed, ValModel::List(vals_view(l@))),
{
    proof {
        lemma_vals_view_len(l@);
    }
    let mut names: Vec<String> = Vec::new();
    let mut out: Vec<SQLSchema> = Vec::new();
    let mut i: usize = 0;
    while i < l.len()
        invariant
            i <= l.len(),
            vals_view(l@).len() == l@.len(),
            out@.len() == i as int,
            names@.len() == i as int,
            forall|j: int|
                0 <= j < i ==> (#[trigger] vals_view(l@)[j] matches ValModel::Pair(a, b)
                    && *a is Str && *b is Schema),
            forall|j: int|
                0 <= j < i ==> names@[j]@ == (*vals_view(l@)[j]->Pair_0)->Str_0,
            forall|j: int|
                0 <= j < i ==> schema_view(out@[j]) == (*vals_view(l@)[j]->Pair_1)->Schema_0,
        decreases l.len() - i,
    {
        proof {
            lemma_vals_view_index(l@, i as int);
        }
        let mut good = false;
        match &l[i] {
            Value::Pair(a, b) => {
                match (&**a, &**b) {
                    (Value::Str(nm), Value::Schema(s)) => {
                        names.push(nm.clone());
                        out.push(s.clone());
                        good = true;
                    },
                    _ => {},
                }
            },
            _ => {},
        }
        if !good {
            proof {
                assert(!all_named(vals_view(l@)));
            }
            return Value::List(l);
        }
        i = i + 1;
    }
    proof {
        assert(all_named(vals_view(l@)));
        assert(names.deep_view() =~= named_names(vals_view(l@)));
        assert(crate::sql_schema::schemas_view(out@) =~= named_schemas(vals_view(l@))) by {
            crate::sql_schema::lemma_schemas_view_len(out@);
            assert forall|j: int| 0 <= j < out@.len() implies crate::sql_schema::schemas_view(
                out@,
            )[j] == named_schemas(vals_view(l@))[j] by {
                crate::sql_schema::lemma_schemas_view_index(out@, j);
            }
        }
    }
    Value::Schema(SQLSchema::NamedTuple { name: names, tuple: out })
}

/// Apply an error transformation.
pub fn eval_err(f: &ErrFn, at: usize, e: SQLError) -> (r: SQLError)
    ensures
        r.deep_view() == apply_err(f.deep_view(), at as int, e.deep_view()),
{
    match f {
        ErrFn::ToUnknown => SQLError::Unknown,
        ErrFn::Mismatch(s) => SQLError::MismatchToken(at, s.clone()),
    }
}

} // verus!

