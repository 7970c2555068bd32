//! The schema syntax tree produced by the schema grammar.
use vstd::prelude::*;

verus! {

/// A parsed schema: a primitive type, an anonymous tuple, or a tuple of
/// named fields.
#[derive(Debug)]
pub enum SQLSchema {
    NamedTuple { name: Vec<String>, tuple: Vec<SQLSchema> },
    Tuple { tuple: Vec<SQLSchema> },
    I64,
    I32,
    I16,
    I8,
    U64,
    U32,
    U16,
    U8,
    Nil,
    F32,
    F64,
    Str,
}

/// The mathematical shape of an [`SQLSchema`].
pub enum SchemaModel {
    NamedTuple { name: Seq<Seq<char>>, tuple: Seq<SchemaModel> },
    Tuple { tuple: Seq<SchemaModel> },
    I64,
    I32,
    I16,
    I8,
    U64,
    U32,
    U16,
    U8,
    Nil,
    F32,
    F64,
    Str,
}

/// Recursive definition behind [`SQLSchema::deep_view`].
pub open spec fn schema_view(s: SQLSchema) -> SchemaModel
    decreases s,
{
    match s {
        SQLSchema::NamedTuple { name, tuple } => SchemaModel::NamedTuple {
            name: name.deep_view(),
            tuple: schemas_view(tuple@),
        },
        SQLSchema::Tuple { tuple } => SchemaModel::Tuple { tuple: schemas_view(tuple@) },
        SQLSchema::I64 => SchemaModel::I64,
        SQLSchema::I32 => SchemaModel::I32,
        SQLSchema::I16 => SchemaModel::I16,
        SQLSchema::I8 => SchemaModel::I8,
        SQLSchema::U64 => SchemaModel::U64,
        SQLSchema::U32 => SchemaModel::U32,
        SQLSchema::U16 => SchemaModel::U16,
        SQLSchema::U8 => SchemaModel::U8,
        SQLSchema::Nil => SchemaModel::Nil,
        SQLSchema::F32 => SchemaModel::F32,
        SQLSchema::F64 => SchemaModel::F64,
        SQLSchema::Str => SchemaModel::Str,
    }
}

/// Element-wise [`schema_view`] over a sequence.
pub open spec fn schemas_view(s: Seq<SQLSchema>) -> Seq<SchemaModel>
    decreases s,
{
    if s.len() == 0 {
        Seq::empty()
    } else {
        schemas_view(s.drop_last()).push(schema_view(s.last()))
    }
}

pub broadcast proof fn lemma_schemas_view_len(s: Seq<SQLSchema>)
    ensures
        (#[trigger] schemas_view(s)).len() == s.len(),
    decreases s,
{
    if s.len() > 0 {
        lemma_schemas_view_len(s.drop_last());
    }
}

pub broadcast proof fn lemma_schemas_view_index(s: Seq<SQLSchema>, i: int)
    requires
        0 <= i < s.len(),
    ensures
        #[trigger] schemas_view(s)[i] == schema_view(s[i]),
    decreases s,
{
    lemma_schemas_view_len(s);
    if s.len() > 0 && i < s.len() - 1 {
        lemma_schemas_view_len(s.drop_last());
        lemma_schemas_view_index(s.drop_last(), i);
    }
}

/// Two sequences whose elements have equal views have equal views.
pub proof fn lemma_schemas_view_pointwise(a: Seq<SQLSchema>, b: Seq<SQLSchema>)
    requires
        a.len() == b.len(),
        forall|i: int| 0 <= i < a.len() ==> schema_view(a[i]) == schema_view(b[i]),
    ensures
        schemas_view(a) == schemas_view(b),
{
    lemma_schemas_view_len(a);
    lemma_schemas_view_len(b);
    assert forall|i: int| 0 <= i < a.len() implies schemas_view(a)[i] == schemas_view(b)[i] by {
        lemma_schemas_view_index(a, i);
        lemma_schemas_view_index(b, i);
    }
    assert(schemas_view(a) =~= schemas_view(b));
}

impl DeepView for SQLSchema {
    type V = SchemaModel;

    open spec fn deep_view(&self) -> SchemaModel {
        schema_view(*self)
    }
}

fn clone_strings(v: &Vec<String>) -> (r: Vec<String>)
    ensures
        r.deep_view() == v.deep_view(),
{
    let mut out: Vec<String> = Vec::new();
    let mut i: usize = 0;
    while i < v.len()
        invariant
            i <= v.len(),
            out@.len() == i as int,
            forall|j: int| 0 <= j < i ==> out@[j]@ == v@[j]@,
        decreases v.len() - i,
    {
        out.push(v[i].clone());
        i = i + 1;
    }
    proof {
        assert(out.deep_view() =~= v.deep_view());
    }
    out
}

fn clone_schemas(v: &Vec<SQLSchema>) -> (r: Vec<SQLSchema>)
    ensures
        schemas_view(r@) == schemas_view(v@),
    decreases v@,
{
    let mut out: Vec<SQLSchema> = Vec::new();
    let mut i: usize = 0;
    while i < v.len()
        invariant
            i <= v.len(),
            out@.len() == i as int,
            forall|j: int| 0 <= j < i ==> schema_view(out@[j]) == schema_view(v@[j]),
        decreases v.len() - i,
    {
        proof {
            assert(decreases_to!(v@ => v@[i as int]));
        }
        out.push(v[i].clone());
        i = i + 1;
    }
    proof {
        lemma_schemas_view_pointwise(out@, v@);
    }
    out
}

impl Clone for SQLSchema {
    fn clone(&self) -> (r: SQLSchema)
        ensures
            r.deep_view() == self.deep_view(),
        decreases *self,
    {
        match self {
            SQLSchema::NamedTuple { name, tuple } => {
                proof {
                    assert(decreases_to!(*self => self->NamedTuple_tuple));
                    assert(decreases_to!(self->NamedTuple_tuple => self->NamedTuple_tuple@));
                }
                SQLSchema::NamedTuple { name: clone_strings(name), tuple: clone_schemas(tuple) }
            },
            SQLSchema::Tuple { tuple } => {
                proof {
                    assert(decreases_to!(*self => self->Tuple_tuple));
                    assert(decreases_to!(self->Tuple_tuple => self->Tuple_tuple@));
                }
                SQLSchema::Tuple { tuple: clone_schemas(tuple) }
            },
            SQLSchema::I64 => SQLSchema::I64,
            SQLSchema::I32 => SQLSchema::I32,
            SQLSchema::I16 => SQLSchema::I16,
            SQLSchema::I8 => SQLSchema::I8,
            SQLSchema::U64 => SQLSchema::U64,
            SQLSchema::U32 => SQLSchema::U32,
            SQLSchema::U16 => SQLSchema::U16,
            SQLSchema::U8 => SQLSchema::U8,
            SQLSchema::Nil => SQLSchema::Nil,
            SQLSchema::F32 => SQLSchema::F32,
            SQLSchema::F64 => SQLSchema::F64,
            SQLSchema::Str => SQLSchema::Str,
        }
    }
}

} // verus!
