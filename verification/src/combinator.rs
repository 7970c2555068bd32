//! The combinator algebra: a grammar is a tree of [`Comb`] nodes, plus an
//! arena of named rules for recursion and memoization.
//!
//! A rule that should be memoized, or that refers to itself, lives in the
//! arena of a [`Grammar`] and is reached through `Comb::Call(tag)`; the tag
//! is the key of the memo table.  Plain nodes are evaluated structurally
//! and are not memoized, so the memo table grows with the number of named
//! rules, not with every combinator application.
use vstd::prelude::*;

use crate::value::ErrFn;
use crate::value::ErrFnModel;
use crate::value::OutFn;
use crate::value::OutFnModel;

verus! {

/// One node of a combinator tree.
pub enum Comb {
    /// Match a literal at the current position.
    Token(String),
    /// Match a maximal run of ASCII identifier characters.
    Ident,
    /// Skip whitespace, run the inner parser, then skip whitespace again.
    Pad(Box<Comb>),
    /// Run the left parser, then the right parser from where it stopped.
    Then(Box<Comb>, Box<Comb>),
    /// Run the left parser; only if it fails, run the right one (ordered
    /// choice).
    Else(Box<Comb>, Box<Comb>),
    /// Run the inner parser zero or more times, collecting the outputs.
    Repeat(Box<Comb>),
    /// Transform the output of a success.
    MapOut(OutFn, Box<Comb>),
    /// Transform the error of a failure.
    MapErr(ErrFn, Box<Comb>),
    /// Run the rule with the given tag, through the memo table.
    Call(u64),
    /// The placeholder body of a declared but not yet bound rule.
    Unbound,
}

/// The mathematical shape of a [`Comb`].
pub enum CombModel {
    Token(Seq<char>),
    Ident,
    Pad(Box<CombModel>),
    Then(Box<CombModel>, Box<CombModel>),
    Else(Box<CombModel>, Box<CombModel>),
    Repeat(Box<CombModel>),
    MapOut(OutFnModel, Box<CombModel>),
    MapErr(ErrFnModel, Box<CombModel>),
    Call(int),
    Unbound,
}

/// Recursive definition behind [`Comb::deep_view`].
pub open spec fn comb_view(c: Comb) -> CombModel
    decreases c,
{
    match c {
        Comb::Token(t) => CombModel::Token(t@),
        Comb::Ident => CombModel::Ident,
        Comb::Pad(p) => CombModel::Pad(Box::new(comb_view(*p))),
        Comb::Then(p, q) => CombModel::Then(Box::new(comb_view(*p)), Box::new(comb_view(*q))),
        Comb::Else(p, q) => CombModel::Else(Box::new(comb_view(*p)), Box::new(comb_view(*q))),
        Comb::Repeat(p) => CombModel::Repeat(Box::new(comb_view(*p))),
        Comb::MapOut(f, p) => CombModel::MapOut(f.deep_view(), Box::new(comb_view(*p))),
        Comb::MapErr(f, p) => CombModel::MapErr(f.deep_view(), Box::new(comb_view(*p))),
        Comb::Call(t) => CombModel::Call(t as int),
        Comb::Unbound => CombModel::Unbound,
    }
}

impl DeepView for Comb {
    type V = CombModel;

    open spec fn deep_view(&self) -> CombModel {
        comb_view(*self)
    }
}

impl Clone for Comb {
    fn clone(&self) -> (r: Comb)
        ensures
            r.deep_view() == self.deep_view(),
        decreases *self,
    {
        match self {
            Comb::Token(t) => Comb::Token(t.clone()),
            Comb::Ident => Comb::Ident,
            Comb::Pad(p) => Comb::Pad(Box::new((**p).clone())),
            Comb::Then(p, q) => Comb::Then(Box::new((**p).clone()), Box::new((**q).clone())),
            Comb::Else(p, q) => Comb::Else(Box::new((**p).clone()), Box::new((**q).clone())),
            Comb::Repeat(p) => Comb::Repeat(Box::new((**p).clone())),
            Comb::MapOut(f, p) => Comb::MapOut(f.clone(), Box::new((**p).clone())),
            Comb::MapErr(f, p) => Comb::MapErr(f.clone(), Box::new((**p).clone())),
            Comb::Call(t) => Comb::Call(*t),
            Comb::Unbound => Comb::Unbound,
        }
    }
}

/// A combinator is well formed for a grammar of `n` rules when every rule
/// it calls exists and no unbound placeholder is left in it.
pub open spec fn wf_comb(c: CombModel, n: int) -> bool
    decreases c,
{
    match c {
        CombModel::Token(_) => true,
        CombModel::Ident => true,
        CombModel::Pad(p) => wf_comb(*p, n),
        CombModel::Then(p, q) => wf_comb(*p, n) && wf_comb(*q, n),
        CombModel::Else(p, q) => wf_comb(*p, n) && wf_comb(*q, n),
        CombModel::Repeat(p) => wf_comb(*p, n),
        CombModel::MapOut(_, p) => wf_comb(*p, n),
        CombModel::MapErr(_, p) => wf_comb(*p, n),
        CombModel::Call(t) => 0 <= t < n,
        CombModel::Unbound => false,
    }
}

/// Element-wise [`comb_view`] over the rule arena.
pub open spec fn rules_view(s: Seq<Comb>) -> Seq<CombModel> {
    Seq::new(s.len(), |i: int| comb_view(s[i]))
}

/// Every rule of the grammar is bound and well formed.
pub open spec fn wf_grammar(g: Seq<CombModel>) -> bool {
    forall|i: int| 0 <= i < g.len() ==> wf_comb(#[trigger] g[i], g.len() as int)
}

/// The arena of named rules of one grammar.
///
/// Rules are declared first and bound once, so a rule body can refer to
/// rules that are declared later; this is how a self-referential rule is
/// tied without cyclic ownership.
pub struct Grammar {
    pub rules: Vec<Comb>,
}

impl Grammar {
    /// A grammar with no named rules.
    pub fn new() -> (g: Grammar)
        ensures
            g.rules@.len() == 0,
    {
        Grammar { rules: Vec::new() }
    }

    /// Reserve a fresh tag whose body is bound later.
    pub fn declare(&mut self) -> (r: Recursive)
        requires
            old(self).rules@.len() < 0xffff_ffff,
        ensures
            final(self).rules@.len() == old(self).rules@.len() + 1,
            rules_view(final(self).rules@) == rules_view(old(self).rules@).push(CombModel::Unbound),
            r.tag == old(self).rules@.len() as u64,
    {
        let t = self.rules.len() as u64;
        self.rules.push(Comb::Unbound);
        proof {
            assert(rules_view(self.rules@) =~= rules_view(old(self).rules@).push(
                CombModel::Unbound,
            ));
        }
        Recursive { tag: t }
    }

    /// Bind the body of a declared rule.  A rule is bound at most once:
    /// its slot must still hold the placeholder.
    pub fn bind(&mut self, r: &Recursive, body: Tag)
        requires
            (r.tag as int) < old(self).rules@.len(),
            rules_view(old(self).rules@)[r.tag as int] is Unbound,
        ensures
            final(self).rules@.len() == old(self).rules@.len(),
            rules_view(final(self).rules@) == rules_view(old(self).rules@).update(
                r.tag as int,
                body.node.deep_view(),
            ),
    {
        let n = self.rules.len();
        proof {
            assert((r.tag as int) < (n as int));
        }
        let i = r.tag as usize;
        self.rules.set(i, body.node);
        proof {
            assert(rules_view(self.rules@) =~= rules_view(old(self).rules@).update(
                r.tag as int,
                body.node.deep_view(),
            ));
        }
    }

    /// Declare a rule and bind it at once, so that the inner parser is
    /// evaluated at most once per input position and session.
    pub fn memorized(&mut self, inner: Tag) -> (r: Tag)
        requires
            old(self).rules@.len() < 0xffff_ffff,
        ensures
            final(self).rules@.len() == old(self).rules@.len() + 1,
            rules_view(final(self).rules@) == rules_view(old(self).rules@).push(inner.node.deep_view()),
            r.node.deep_view() == CombModel::Call(old(self).rules@.len() as int),
    {
        let t = self.rules.len() as u64;
        self.rules.push(inner.node);
        proof {
            assert(rules_view(self.rules@) =~= rules_view(old(self).rules@).push(
                inner.node.deep_view(),
            ));
        }
        Tag { node: Comb::Call(t) }
    }
}

/// A rule given a tag of its own, so that the memo table caches its
/// outcomes per position.
pub struct Memorized {
    pub tag: u64,
}

impl Memorized {
    /// Move a parser into the grammar's arena under a fresh tag.
    pub fn new(g: &mut Grammar, inner: Tag) -> (r: Memorized)
        requires
            old(g).rules@.len() < 0xffff_ffff,
        ensures
            final(g).rules@.len() == old(g).rules@.len() + 1,
            rules_view(final(g).rules@) == rules_view(old(g).rules@).push(inner.node.deep_view()),
            r.tag == old(g).rules@.len() as u64,
    {
        let t = g.rules.len() as u64;
        let _ = g.memorized(inner);
        Memorized { tag: t }
    }

    /// The combinator that runs this rule through the memo table.
    pub fn handle(&self) -> (r: Tag)
        ensures
            r.node.deep_view() == CombModel::Call(self.tag as int),
    {
        Tag { node: Comb::Call(self.tag) }
    }
}

/// A handle to a declared rule: the placeholder that a rule body embeds
/// wherever the rule refers to itself.
pub struct Recursive {
    pub tag: u64,
}

impl Recursive {
    /// The combinator that runs this rule through the memo table.
    pub fn handle(&self) -> (r: Tag)
        ensures
            r.node.deep_view() == CombModel::Call(self.tag as int),
    {
        Tag { node: Comb::Call(self.tag) }
    }
}

impl Clone for Recursive {
    fn clone(&self) -> (r: Recursive)
        ensures
            r.tag == self.tag,
    {
        Recursive { tag: self.tag }
    }
}

/// Build a self-referential rule: the builder receives a handle to the
/// rule being defined and returns its body, which is then bound exactly
/// once, before any parse can reach it.
pub fn recurse<F: FnOnce(Tag) -> Tag>(g: &mut Grammar, builder: F) -> (r: Tag)
    requires
        old(g).rules@.len() < 0xffff_ffff,
        call_requires(
            builder,
            (Tag { node: Comb::Call(old(g).rules@.len() as u64) },),
        ),
    ensures
        final(g).rules@.len() == old(g).rules@.len() + 1,
        r.node.deep_view() == CombModel::Call(old(g).rules@.len() as int),
        exists|body: Tag|
            call_ensures(
                builder,
                (Tag { node: Comb::Call(old(g).rules@.len() as u64) },),
                body,
            ) && rules_view(final(g).rules@) == rules_view(old(g).rules@).push(
                #[trigger] body.node.deep_view(),
            ),
{
    let this = g.declare();
    let body = builder(Tag { node: Comb::Call(this.tag) });
    let ghost b = body;
    g.bind(&this, body);
    proof {
        assert(rules_view(g.rules@) =~= rules_view(old(g).rules@).push(b.node.deep_view()));
    }
    this.handle()
}

/// A combinator tree under construction.  The methods mirror the
/// operators a grammar is written with: sequencing, ordered choice,
/// repetition, padding and output/error transformation.
pub struct Tag {
    pub node: Comb,
}

impl Tag {
    /// Wrap a combinator node.
    pub fn new(node: Comb) -> (r: Tag)
        ensures
            r.node.deep_view() == node.deep_view(),
    {
        Tag { node }
    }

    /// Skip whitespace on both sides of this parser.
    pub fn pad(self) -> (r: Tag)
        ensures
            r.node.deep_view() == CombModel::Pad(Box::new(self.node.deep_view())),
    {
        Tag { node: Comb::Pad(Box::new(self.node)) }
    }

    /// Transform the output of this parser.
    pub fn out(self, f: OutFn) -> (r: Tag)
        ensures
            r.node.deep_view() == CombModel::MapOut(
                f.deep_view(),
                Box::new(self.node.deep_view()),
            ),
    {
        Tag { node: Comb::MapOut(f, Box::new(self.node)) }
    }

    /// Transform the error of this parser.
    pub fn err(self, f: ErrFn) -> (r: Tag)
        ensures
            r.node.deep_view() == CombModel::MapErr(
                f.deep_view(),
                Box::new(self.node.deep_view()),
            ),
    {
        Tag { node: Comb::MapErr(f, Box::new(self.node)) }
    }

    /// Run this parser, then `q`; the output pairs both outputs.
    pub fn both(self, q: Tag) -> (r: Tag)
        ensures
            r.node.deep_view() == CombModel::Then(
                Box::new(self.node.deep_view()),
                Box::new(q.node.deep_view()),
            ),
    {
        Tag { node: Comb::Then(Box::new(self.node), Box::new(q.node)) }
    }

    /// Run this parser; only if it fails, run `q`.  The output keeps a
    /// `Left`/`Right` tag saying which branch succeeded.
    pub fn or(self, q: Tag) -> (r: Tag)
        ensures
            r.node.deep_view() == CombModel::Else(
                Box::new(self.node.deep_view()),
                Box::new(q.node.deep_view()),
            ),
    {
        Tag { node: Comb::Else(Box::new(self.node), Box::new(q.node)) }
    }

    /// Ordered choice between two parsers with outputs of the same shape:
    /// the `Left`/`Right` tag is removed from the output.  When both
    /// branches fail, their errors are kept together as one `Merge`
    /// diagnostic, so "expected this or that" survives a chain of
    /// alternatives.
    pub fn merged_or(self, q: Tag) -> (r: Tag)
        ensures
            r.node.deep_view() == CombModel::MapOut(
                OutFnModel::UnwrapEither,
                Box::new(
                    CombModel::Else(
                        Box::new(self.node.deep_view()),
                        Box::new(q.node.deep_view()),
                    ),
                ),
            ),
    {
        self.or(q).out(OutFn::UnwrapEither)
    }

    /// Run this parser, then `q`, keeping only this parser's output.
    pub fn keep_left(self, q: Tag) -> (r: Tag)
        ensures
            r.node.deep_view() == CombModel::MapOut(
                OutFnModel::First,
                Box::new(
                    CombModel::Then(
                        Box::new(self.node.deep_view()),
                        Box::new(q.node.deep_view()),
                    ),
                ),
            ),
    {
        self.both(q).out(OutFn::First)
    }

    /// Run this parser, then `q`, keeping only `q`'s output.
    pub fn keep_right(self, q: Tag) -> (r: Tag)
        ensures
            r.node.deep_view() == CombModel::MapOut(
                OutFnModel::Second,
                Box::new(
                    CombModel::Then(
                        Box::new(self.node.deep_view()),
                        Box::new(q.node.deep_view()),
                    ),
                ),
            ),
    {
        self.both(q).out(OutFn::Second)
    }

    /// Run this parser zero or more times, collecting the outputs into a
    /// list; the repetition itself never fails.
    pub fn star(self) -> (r: Tag)
        ensures
            r.node.deep_view() == CombModel::Repeat(Box::new(self.node.deep_view())),
    {
        Tag { node: Comb::Repeat(Box::new(self.node)) }
    }
}

impl Clone for Tag {
    fn clone(&self) -> (r: Tag)
        ensures
            r.node.deep_view() == self.node.deep_view(),
    {
        Tag { node: self.node.clone() }
    }
}

/// The literal combinator.
pub struct Token;

impl Token {
    /// A parser that succeeds exactly when the input at the current
    /// position starts with `token`, consuming it.
    pub fn new(token: &str) -> (r: Tag)
        ensures
            r.node.deep_view() == CombModel::Token(token@),
    {
        Tag { node: Comb::Token(token.to_owned()) }
    }
}

/// A value of one of two shapes; ordered choice between parsers with
/// unrelated outputs tags its result with the branch that produced it.
pub enum Either<L, R> {
    L(L),
    R(R),
}

impl<L> Either<L, L> {
    /// Remove the tag when both shapes agree.
    pub fn unwrap(self) -> (r: L)
        ensures
            r == match self {
                Either::L(x) => x,
                Either::R(x) => x,
            },
    {
        match self {
            Either::L(x) => x,
            Either::R(x) => x,
        }
    }
}

} // verus!
