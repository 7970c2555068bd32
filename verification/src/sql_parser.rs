//! The schema grammar: the one concrete grammar this crate defines with
//! its own combinators.
//!
//! A schema is a primitive type name, a tuple `(s, s, s)` with an
//! optional trailing comma, or a named tuple `(a: s, b: s)`; whitespace
//! may appear around every token.
use vstd::prelude::*;

use crate::combinator::Comb;
use crate::combinator::CombModel;
use crate::combinator::Grammar;
use crate::combinator::Tag;
use crate::combinator::Token;
use crate::combinator::rules_view;
use crate::combinator::wf_comb;
use crate::combinator::wf_grammar;
use crate::sql_schema::SQLSchema;
use crate::sql_schema::SchemaModel;
use crate::sql_schema::schema_view;
use crate::value::OutFn;
use crate::value::OutFnModel;

verus! {

/// How two tables are joined in a query.
#[derive(Clone, Copy, Debug)]
pub enum SQLJoinMethod {
    Left,
    Right,
    Inner,
    Outer,
}

/// The identifier primitive: a maximal run of ASCII letters, digits and
/// underscores.
pub struct SQLIdent;

impl SQLIdent {
    /// A parser for one identifier, whose output is the matched text.
    pub fn new() -> (r: Tag)
        ensures
            r.node.deep_view() == CombModel::Ident,
    {
        Tag { node: Comb::Ident }
    }
}

/// A literal with whitespace allowed around it.
pub open spec fn tok_model(t: Seq<char>) -> CombModel {
    CombModel::Pad(Box::new(CombModel::Token(t)))
}

/// A literal that stands for a primitive schema.
pub open spec fn prim_model(t: Seq<char>, s: SchemaModel) -> CombModel {
    CombModel::MapOut(OutFnModel::SchemaConst(s), Box::new(tok_model(t)))
}

pub open spec fn merged_or_model(a: CombModel, b: CombModel) -> CombModel {
    CombModel::MapOut(OutFnModel::UnwrapEither, Box::new(CombModel::Else(Box::new(a), Box::new(b))))
}

pub open spec fn keep_left_model(a: CombModel, b: CombModel) -> CombModel {
    CombModel::MapOut(OutFnModel::First, Box::new(CombModel::Then(Box::new(a), Box::new(b))))
}

pub open spec fn keep_right_model(a: CombModel, b: CombModel) -> CombModel {
    CombModel::MapOut(OutFnModel::Second, Box::new(CombModel::Then(Box::new(a), Box::new(b))))
}

/// The ordered choice over the twelve primitive type names.
pub open spec fn schema_simple_model() -> CombModel {
    merged_or_model(
        merged_or_model(
            merged_or_model(
                merged_or_model(
                    merged_or_model(
                        merged_or_model(
                            merged_or_model(
                                merged_or_model(
                                    merged_or_model(
                                        merged_or_model(
                                            merged_or_model(
                                                prim_model("i64"@, SchemaModel::I64),
                                                prim_model("i32"@, SchemaModel::I32),
                                            ),
                                            prim_model("i16"@, SchemaModel::I16),
                                        ),
                                        prim_model("i8"@, SchemaModel::I8),
                                    ),
                                    prim_model("u64"@, SchemaModel::U64),
                                ),
                                prim_model("u32"@, SchemaModel::U32),
                            ),
                            prim_model("u16"@, SchemaModel::U16),
                        ),
                        prim_model("u8"@, SchemaModel::U8),
                    ),
                    prim_model("nil"@, SchemaModel::Nil),
                ),
                prim_model("f32"@, SchemaModel::F32),
            ),
            prim_model("f64"@, SchemaModel::F64),
        ),
        prim_model("str"@, SchemaModel::Str),
    )
}

/// Zero or more `element ,` groups.
pub open spec fn items_model(one: CombModel) -> CombModel {
    CombModel::Repeat(Box::new(keep_left_model(one, tok_model(","@))))
}

/// `( items )` or `( items last )`: a parenthesised comma-separated
/// list, either ending with a separator or with one last element.
pub open spec fn group_model(one: CombModel, last: CombModel) -> CombModel {
    merged_or_model(
        keep_left_model(keep_right_model(tok_model("("@), items_model(one)), tok_model(")"@)),
        CombModel::MapOut(
            OutFnModel::ListPush,
            Box::new(
                CombModel::Then(
                    Box::new(keep_right_model(tok_model("("@), items_model(one))),
                    Box::new(keep_left_model(last, tok_model(")"@))),
                ),
            ),
        ),
    )
}

/// One named field: `name : schema`.
pub open spec fn named_one_model() -> CombModel {
    CombModel::Then(
        Box::new(keep_left_model(CombModel::Pad(Box::new(CombModel::Ident)), tok_model(":"@))),
        Box::new(CombModel::Call(0)),
    )
}

/// The body of the schema rule: a tuple, a named tuple, or a primitive
/// name, under padding; recursive occurrences go through the rule's tag.
pub open spec fn schema_rule_model() -> CombModel {
    CombModel::Pad(
        Box::new(
            merged_or_model(
                merged_or_model(
                    CombModel::MapOut(
                        OutFnModel::SchemaTuple,
                        Box::new(group_model(CombModel::Call(0), CombModel::Call(0))),
                    ),
                    CombModel::MapOut(
                        OutFnModel::SchemaNamed,
                        Box::new(group_model(named_one_model(), named_one_model())),
                    ),
                ),
                schema_simple_model(),
            ),
        ),
    )
}

/// A literal with whitespace allowed around it.
fn tok(s: &str) -> (r: Tag)
    ensures
        r.node.deep_view() == tok_model(s@),
{
    Token::new(s).pad()
}

/// A literal that stands for a primitive schema.
fn prim(s: &str, sch: SQLSchema) -> (r: Tag)
    ensures
        r.node.deep_view() == prim_model(s@, schema_view(sch)),
{
    tok(s).out(OutFn::SchemaConst(sch))
}

/// The ordered choice over the primitive type names.
fn schema_simple() -> (r: Tag)
    ensures
        r.node.deep_view() == schema_simple_model(),
{
    prim("i64", SQLSchema::I64).merged_or(prim("i32", SQLSchema::I32)).merged_or(
        prim("i16", SQLSchema::I16),
    ).merged_or(prim("i8", SQLSchema::I8)).merged_or(prim("u64", SQLSchema::U64)).merged_or(
        prim("u32", SQLSchema::U32),
    ).merged_or(prim("u16", SQLSchema::U16)).merged_or(prim("u8", SQLSchema::U8)).merged_or(
        prim("nil", SQLSchema::Nil),
    ).merged_or(prim("f32", SQLSchema::F32)).merged_or(prim("f64", SQLSchema::F64)).merged_or(
        prim("str", SQLSchema::Str),
    )
}

/// `( items )` or `( items last )`.
fn group(one: Tag, one_again: Tag, last: Tag) -> (r: Tag)
    requires
        one.node.deep_view() == one_again.node.deep_view(),
    ensures
        r.node.deep_view() == group_model(one.node.deep_view(), last.node.deep_view()),
{
    let items_a = one.keep_left(tok(",")).star();
    let items_b = one_again.keep_left(tok(",")).star();
    let whole = tok("(").keep_right(items_a).keep_left(tok(")"));
    let partial = tok("(").keep_right(items_b).both(last.keep_left(tok(")"))).out(OutFn::ListPush);
    whole.merged_or(partial)
}

/// The schema grammar: its rule arena and its entry parser.
///
/// The grammar holds one memoized rule, the schema rule itself; the
/// returned parser runs it.  The rule arena is exactly
/// [`schema_rule_model`], so everything a parse with it returns is fixed
/// by [`crate::parse::sp_parse`].
pub fn sql_parser_schema() -> (r: (Grammar, Tag))
    ensures
        rules_view(r.0.rules@) =~= seq![schema_rule_model()],
        r.1.node.deep_view() == CombModel::Call(0),
        wf_grammar(rules_view(r.0.rules@)),
        wf_comb(r.1.node.deep_view(), 1),
{
    let mut g = Grammar::new();
    let this = g.declare();
    let named_one = || -> (r: Tag)
        ensures
            r.node.deep_view() == named_one_model(),
        {
            SQLIdent::new().pad().keep_left(tok(":")).both(Tag { node: Comb::Call(0) })
        };
    let tuple = group(
        Tag { node: Comb::Call(0) },
        Tag { node: Comb::Call(0) },
        Tag { node: Comb::Call(0) },
    ).out(OutFn::SchemaTuple);
    let named = group(named_one(), named_one(), named_one()).out(OutFn::SchemaNamed);
    let body = tuple.merged_or(named).merged_or(schema_simple()).pad();
    proof {
        assert(body.node.deep_view() == schema_rule_model());
    }
    g.bind(&this, body);
    let entry = this.handle();
    proof {
        assert(rules_view(g.rules@) =~= seq![schema_rule_model()]);
        assert(wf_comb(schema_rule_model(), 1)) by {
            reveal_with_fuel(wf_comb, 64);
        }
    }
    (g, entry)
}

} // verus!
