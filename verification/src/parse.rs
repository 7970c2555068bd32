//! The parsing engine: one recursive descent over a combinator tree.
//!
//! The meaning of a parse is the spec function [`sp_parse`]: a pure
//! function from (grammar, combinator, input, position, memo table) to
//! (outcome, memo table).  The executable [`Tag::parse`] is proved to
//! return exactly that, which is what makes a parse deterministic: two
//! calls with the same input, grammar and session state return the same
//! outcome.
//!
//! Termination does not rest on the grammar being sensible: a rule that
//! re-enters itself at the same position is cut off by the guard in the
//! `Call` case, and every other step either consumes input or descends
//! into a strictly smaller combinator.
use vstd::prelude::*;
use vstd::set_lib::lemma_len_subset;
use vstd::set_lib::lemma_int_range;
use vstd::set_lib::set_int_range;

use crate::combinator::Comb;
use crate::combinator::CombModel;
use crate::combinator::Grammar;
use crate::combinator::Tag;
use crate::combinator::rules_view;
use crate::combinator::wf_comb;
use crate::combinator::wf_grammar;
use crate::error::ErrModel;
use crate::error::SQLError;
use crate::parser_space::MemoModel;
use crate::parser_space::MemoStatus;
use crate::parser_space::PRes;
use crate::parser_space::ResModel;
use crate::parser_space::SQLSpace;
use crate::parser_space::in_prog;
use crate::parser_space::mem_find;
use crate::parser_space::mem_mark;
use crate::parser_space::mem_resolve;
use crate::parser_space::res_view;
use crate::parser_space::wf_space;
use crate::value::ValModel;
use crate::value::Value;
use crate::value::apply_err;
use crate::value::apply_out;

verus! {

/// Whether a character counts as whitespace.  The padding combinator
/// goes by the Unicode white-space property, which `char::is_whitespace`
/// implements; the result depends on the character alone.
pub uninterp spec fn is_space(c: char) -> bool;

/// Relies on char::is_whitespace: whether the character has the Unicode
/// white-space property.
#[verifier::external_body]
fn is_space_char(c: char) -> (r: bool)
    ensures
        r == is_space(c),
{
    c.is_whitespace()
}

/// The first position at or after `pos` that does not hold whitespace.
pub open spec fn skip_ws(inp: Seq<char>, pos: int) -> int
    decreases inp.len() - pos,
    when 0 <= pos <= inp.len()
{
    if pos < inp.len() && is_space(inp[pos]) {
        skip_ws(inp, pos + 1)
    } else {
        pos
    }
}

pub proof fn lemma_skip_ws_bounds(inp: Seq<char>, pos: int)
    requires
        0 <= pos <= inp.len(),
    ensures
        pos <= skip_ws(inp, pos) <= inp.len(),
    decreases inp.len() - pos,
{
    if pos < inp.len() && is_space(inp[pos]) {
        lemma_skip_ws_bounds(inp, pos + 1);
    }
}

/// Whether a character may appear in an identifier: ASCII letters,
/// digits, and the underscore.
pub open spec fn is_ident_char(c: char) -> bool {
    ('a' <= c && c <= 'z') || ('A' <= c && c <= 'Z') || ('0' <= c && c <= '9') || c == '_'
}

/// The end of the identifier-character run that starts at `pos`.
pub open spec fn ident_end(inp: Seq<char>, pos: int) -> int
    decreases inp.len() - pos,
    when 0 <= pos <= inp.len()
{
    if pos < inp.len() && is_ident_char(inp[pos]) {
        ident_end(inp, pos + 1)
    } else {
        pos
    }
}

pub proof fn lemma_ident_end_bounds(inp: Seq<char>, pos: int)
    requires
        0 <= pos <= inp.len(),
    ensures
        pos <= ident_end(inp, pos) <= inp.len(),
    decreases inp.len() - pos,
{
    if pos < inp.len() && is_ident_char(inp[pos]) {
        lemma_ident_end_bounds(inp, pos + 1);
    }
}

/// A position forced back into `[lo, hi]`.  Every position the engine
/// itself produces is already in range, so this changes nothing on any
/// reachable path; it keeps the recursion measure meaningful whatever a
/// caller put into the memo table.
pub open spec fn clamp_pos(p: int, lo: int, hi: int) -> int {
    if p < lo {
        lo
    } else if p > hi {
        hi
    } else {
        p
    }
}

/// The tags that may still be entered afresh at `pos`: all of the
/// grammar's tags except those already on the descent path there.
pub open spec fn avail_tags(n: int, vis: Set<(int, int)>, pos: int) -> Set<int> {
    Set::new(|t: int| 0 <= t < n && !vis.contains((pos, t)))
}

pub proof fn lemma_avail_tags_finite(n: int, vis: Set<(int, int)>, pos: int)
    requires
        n >= 0,
    ensures
        avail_tags(n, vis, pos).finite(),
        avail_tags(n, vis, pos).len() <= n,
{
    lemma_int_range(0, n);
    assert(avail_tags(n, vis, pos).subset_of(set_int_range(0, n)));
    lemma_len_subset(avail_tags(n, vis, pos), set_int_range(0, n));
}

/// The arguments on which the engine's meaning is defined: the position
/// is inside the input, the combinator and every rule of the grammar are
/// well formed, and the descent path holds existing tags only.
pub open spec fn sp_wf(
    g: Seq<CombModel>,
    c: CombModel,
    inp: Seq<char>,
    pos: int,
    vis: Set<(int, int)>,
) -> bool {
    &&& 0 <= pos <= inp.len()
    &&& wf_comb(c, g.len() as int)
    &&& wf_grammar(g)
    &&& forall|pt: (int, int)| #[trigger] vis.contains(pt) ==> 0 <= pt.1 < g.len()
}

/// What one parse step returns and how it leaves the memo table.
///
/// `vis` is the set of `(position, tag)` pairs on the current descent
/// path; a `Call` that is already on it fails with `Visited` instead of
/// descending, which is what bounds left recursion.
pub open spec fn sp_parse(
    g: Seq<CombModel>,
    c: CombModel,
    inp: Seq<char>,
    pos: int,
    vis: Set<(int, int)>,
    mem: MemoModel,
) -> (ResModel, MemoModel)
    decreases inp.len() - pos, avail_tags(g.len() as int, vis, pos).len(), c, 0int,
    when sp_wf(g, c, inp, pos, vis)
    via sp_parse_dec
{
    match c {
        CombModel::Token(t) => {
            if pos + t.len() <= inp.len() && inp.subrange(pos, pos + t.len() as int) == t {
                (Ok((pos + t.len() as int, ValModel::Unit)), mem)
            } else {
                (Err((pos, ErrModel::MismatchToken(pos, t))), mem)
            }
        },
        CombModel::Ident => {
            let e = ident_end(inp, pos);
            if e > pos {
                (Ok((e, ValModel::Str(inp.subrange(pos, e)))), mem)
            } else {
                (Err((pos, ErrModel::CannotFindIdent(pos))), mem)
            }
        },
        CombModel::Pad(p) => {
            let p1 = skip_ws(inp, pos);
            let (r, m1) = sp_parse(g, *p, inp, p1, vis, mem);
            match r {
                Ok((p2, v)) => (
                    Ok((skip_ws(inp, clamp_pos(p2, p1, inp.len() as int)), v)),
                    m1,
                ),
                Err(e) => (Err(e), m1),
            }
        },
        CombModel::Then(p, q) => {
            let (r1, m1) = sp_parse(g, *p, inp, pos, vis, mem);
            match r1 {
                Ok((p1, v1)) => {
                    let (r2, m2) = sp_parse(
                        g,
                        *q,
                        inp,
                        clamp_pos(p1, pos, inp.len() as int),
                        vis,
                        m1,
                    );
                    match r2 {
                        Ok((p2, v2)) => (
                            Ok((p2, ValModel::Pair(Box::new(v1), Box::new(v2)))),
                            m2,
                        ),
                        Err((_, e)) => (Err((pos, e)), m2),
                    }
                },
                Err((_, e)) => (Err((pos, e)), m1),
            }
        },
        CombModel::Else(p, q) => {
            let (r1, m1) = sp_parse(g, *p, inp, pos, vis, mem);
            match r1 {
                Ok((p1, v1)) => (Ok((p1, ValModel::Left(Box::new(v1)))), m1),
                Err((_, e1)) => {
                    let (r2, m2) = sp_parse(g, *q, inp, pos, vis, m1);
                    match r2 {
                        Ok((p2, v2)) => (Ok((p2, ValModel::Right(Box::new(v2)))), m2),
                        Err((_, e2)) => (
                            Err((pos, ErrModel::Merge(Box::new(e1), Box::new(e2)))),
                            m2,
                        ),
                    }
                },
            }
        },
        CombModel::Repeat(p) => sp_rep(g, *p, inp, pos, vis, mem, Seq::empty()),
        CombModel::MapOut(f, p) => {
            let (r, m1) = sp_parse(g, *p, inp, pos, vis, mem);
            match r {
                Ok((p1, v)) => (Ok((p1, apply_out(f, v))), m1),
                Err(e) => (Err(e), m1),
            }
        },
        CombModel::MapErr(f, p) => {
            let (r, m1) = sp_parse(g, *p, inp, pos, vis, mem);
            match r {
                Ok(o) => (Ok(o), m1),
                Err((pe, e)) => (Err((pe, apply_err(f, pe, e))), m1),
            }
        },
        CombModel::Call(t) => {
            match mem_find(mem, pos, t) {
                Some(opt) => match opt {
                    Some(r) => (r, mem),
                    None => (Err((pos, ErrModel::Visited)), mem),
                },
                None => {
                    if vis.contains((pos, t)) {
                        (Err((pos, ErrModel::Visited)), mem)
                    } else {
                        let k = mem[pos].len() as int;
                        let (r, m2) = sp_parse(
                            g,
                            g[t],
                            inp,
                            pos,
                            vis.insert((pos, t)),
                            mem_mark(mem, pos, t),
                        );
                        (r, mem_resolve(m2, pos, k, t, r))
                    }
                },
            }
        },
        CombModel::Unbound => (Err((pos, ErrModel::Unknown)), mem),
    }
}

/// The repetition loop behind `Repeat`: parse the inner combinator,
/// fold each success into the accumulator, and stop — successfully — on
/// the first failure.  A success that consumes nothing also stops the
/// loop, unfolded, so that a nullable inner parser cannot loop forever.
pub open spec fn sp_rep(
    g: Seq<CombModel>,
    p: CombModel,
    inp: Seq<char>,
    pos: int,
    vis: Set<(int, int)>,
    mem: MemoModel,
    acc: Seq<ValModel>,
) -> (ResModel, MemoModel)
    decreases inp.len() - pos, avail_tags(g.len() as int, vis, pos).len(), p, 1int,
    when sp_wf(g, p, inp, pos, vis)
    via sp_rep_dec
{
    let (r, m1) = sp_parse(g, p, inp, pos, vis, mem);
    match r {
        Err(_) => (Ok((pos, ValModel::List(acc))), m1),
        Ok((p1, v)) => {
            let p1c = clamp_pos(p1, pos, inp.len() as int);
            if p1c > pos {
                sp_rep(g, p, inp, p1c, vis, m1, acc.push(v))
            } else {
                (Ok((pos, ValModel::List(acc))), m1)
            }
        },
    }
}

#[via_fn]
proof fn sp_parse_dec(
    g: Seq<CombModel>,
    c: CombModel,
    inp: Seq<char>,
    pos: int,
    vis: Set<(int, int)>,
    mem: MemoModel,
) {
    lemma_skip_ws_bounds(inp, pos);
    lemma_avail_tags_finite(g.len() as int, vis, pos);
    match c {
        CombModel::Call(t) => {
            if mem_find(mem, pos, t) is None && !vis.contains((pos, t)) {
                let n = g.len() as int;
                let a0 = avail_tags(n, vis, pos);
                let a1 = avail_tags(n, vis.insert((pos, t)), pos);
                assert(a1 =~= a0.remove(t));
                assert(a0.contains(t));
                assert(a0.remove(t).len() == a0.len() - 1);
                lemma_avail_tags_finite(n, vis.insert((pos, t)), pos);
            }
        },
        _ => {},
    }
}

#[via_fn]
proof fn sp_rep_dec(
    g: Seq<CombModel>,
    p: CombModel,
    inp: Seq<char>,
    pos: int,
    vis: Set<(int, int)>,
    mem: MemoModel,
    acc: Seq<ValModel>,
) {
    lemma_avail_tags_finite(g.len() as int, vis, pos);
}

} // verus!

verus! {

use crate::parser_space::memo_extends;
use crate::parser_space::lemma_memo_extends_trans;
use crate::parser_space::lemma_find_entry_none;
use crate::parser_space::lemma_find_entry_witness;
use crate::parser_space::lemma_find_entry_push;
use crate::parser_space::lemma_find_entry_update;
use crate::parser_space::lemma_find_entry_skip;
use crate::parser_space::find_entry;
use crate::parser_space::wf_entry;

/// The stack discipline of one parse step: the memo table stays well
/// formed and only grows, rules in progress on entry are exactly those
/// in progress on exit, and a success resumes between its start and the
/// end of the input.
pub proof fn lemma_sp_parse_props(
    g: Seq<CombModel>,
    c: CombModel,
    inp: Seq<char>,
    pos: int,
    vis: Set<(int, int)>,
    mem: MemoModel,
)
    requires
        sp_wf(g, c, inp, pos, vis),
        wf_space(mem, inp.len() as int),
        in_prog(mem) == vis,
    ensures
        wf_space(sp_parse(g, c, inp, pos, vis, mem).1, inp.len() as int),
        in_prog(sp_parse(g, c, inp, pos, vis, mem).1) == vis,
        memo_extends(mem, sp_parse(g, c, inp, pos, vis, mem).1),
        sp_parse(g, c, inp, pos, vis, mem).0 matches Ok((p2, _)) ==> pos <= p2 <= inp.len(),
    decreases inp.len() - pos, avail_tags(g.len() as int, vis, pos).len(), c, 1int,
{
    let n = inp.len() as int;
    match c {
        CombModel::Token(_) => {},
        CombModel::Ident => {
            lemma_ident_end_bounds(inp, pos);
        },
        CombModel::Pad(p) => {
            lemma_skip_ws_bounds(inp, pos);
            let p1 = skip_ws(inp, pos);
            lemma_sp_parse_props(g, *p, inp, p1, vis, mem);
            let (r, m1) = sp_parse(g, *p, inp, p1, vis, mem);
            match r {
                Ok((p2, _)) => {
                    lemma_skip_ws_bounds(inp, clamp_pos(p2, p1, n));
                },
                Err(_) => {},
            }
        },
        CombModel::Then(p, q) => {
            lemma_sp_parse_props(g, *p, inp, pos, vis, mem);
            let (r1, m1) = sp_parse(g, *p, inp, pos, vis, mem);
            match r1 {
                Ok((p1, _)) => {
                    let p1c = clamp_pos(p1, pos, n);
                    lemma_sp_parse_props(g, *q, inp, p1c, vis, m1);
                    let (r2, m2) = sp_parse(g, *q, inp, p1c, vis, m1);
                    lemma_memo_extends_trans(mem, m1, m2);
                },
                Err(_) => {},
            }
        },
        CombModel::Else(p, q) => {
            lemma_sp_parse_props(g, *p, inp, pos, vis, mem);
            let (r1, m1) = sp_parse(g, *p, inp, pos, vis, mem);
            match r1 {
                Ok(_) => {},
                Err(_) => {
                    lemma_sp_parse_props(g, *q, inp, pos, vis, m1);
                    let (r2, m2) = sp_parse(g, *q, inp, pos, vis, m1);
                    lemma_memo_extends_trans(mem, m1, m2);
                },
            }
        },
        CombModel::Repeat(p) => {
            lemma_sp_rep_props(g, *p, inp, pos, vis, mem, Seq::empty());
        },
        CombModel::MapOut(_, p) => {
            lemma_sp_parse_props(g, *p, inp, pos, vis, mem);
        },
        CombModel::MapErr(_, p) => {
            lemma_sp_parse_props(g, *p, inp, pos, vis, mem);
        },
        CombModel::Call(t) => {
            match mem_find(mem, pos, t) {
                Some(opt) => match opt {
                    Some(r) => {
                        let j = lemma_find_entry_witness(mem[pos], t);
                        assert(wf_entry(mem[pos][j], pos, mem.len() as int));
                    },
                    None => {},
                },
                None => {
                    if !vis.contains((pos, t)) {
                        lemma_call_props(g, t, inp, pos, vis, mem);
                    }
                },
            }
        },
        CombModel::Unbound => {},
    }
}

/// The `Call` case of [`lemma_sp_parse_props`], for a rule that is
/// neither cached nor in progress: mark, run the body, fill the mark in.
proof fn lemma_call_props(
    g: Seq<CombModel>,
    t: int,
    inp: Seq<char>,
    pos: int,
    vis: Set<(int, int)>,
    mem: MemoModel,
)
    requires
        sp_wf(g, CombModel::Call(t), inp, pos, vis),
        wf_space(mem, inp.len() as int),
        in_prog(mem) == vis,
        mem_find(mem, pos, t) is None,
        !vis.contains((pos, t)),
    ensures
        wf_space(sp_parse(g, CombModel::Call(t), inp, pos, vis, mem).1, inp.len() as int),
        in_prog(sp_parse(g, CombModel::Call(t), inp, pos, vis, mem).1) == vis,
        memo_extends(mem, sp_parse(g, CombModel::Call(t), inp, pos, vis, mem).1),
        sp_parse(g, CombModel::Call(t), inp, pos, vis, mem).0 matches Ok((p2, _)) ==> pos <= p2
            <= inp.len(),
    decreases inp.len() - pos, avail_tags(g.len() as int, vis, pos).len(), CombModel::Call(t), 0int,
{
    let n = inp.len() as int;
    let k = mem[pos].len() as int;
    let vis2 = vis.insert((pos, t));
    let m1 = mem_mark(mem, pos, t);
    lemma_find_entry_none(mem[pos], t);

    // The mark keeps the table well formed and adds exactly one rule in
    // progress.
    assert(wf_space(m1, n)) by {
        assert forall|p: int, j: int|
            0 <= p < m1.len() && 0 <= j < m1[p].len() implies wf_entry(
            #[trigger] m1[p][j],
            p,
            m1.len() as int,
        ) by {
            if p == pos && j == k {
            } else {
                assert(m1[p][j] == mem[p][j]);
                assert(wf_entry(mem[p][j], p, mem.len() as int));
            }
        }
    }
    assert(in_prog(m1) == vis2) by {
        assert forall|pt: (int, int)|
            in_prog(m1).contains(pt) == vis2.contains(pt) by {
            if pt.0 == pos {
                lemma_find_entry_push(mem[pos], (t, None), pt.1);
                if pt.1 == t {
                    assert(find_entry(m1[pos], t) == Some(None::<ResModel>));
                } else {
                    assert(find_entry(m1[pos], pt.1) == find_entry(mem[pos], pt.1));
                    assert(in_prog(mem).contains(pt) == vis.contains(pt));
                }
            } else if 0 <= pt.0 < mem.len() {
                assert(m1[pt.0] == mem[pt.0]);
                assert(in_prog(m1).contains(pt) == in_prog(mem).contains(pt));
            } else {
                assert(!in_prog(m1).contains(pt));
                assert(!in_prog(mem).contains(pt));
                assert(!vis.contains(pt));
            }
        }
        assert(in_prog(m1) =~= vis2);
    }

    // The body is a well-formed rule of the grammar.
    assert(wf_comb(g[t], g.len() as int));
    assert(sp_wf(g, g[t], inp, pos, vis2));

    // Termination: one fewer tag is available at this position.
    assert(avail_tags(g.len() as int, vis2, pos) =~= avail_tags(g.len() as int, vis, pos).remove(
        t,
    ));
    lemma_avail_tags_finite(g.len() as int, vis, pos);
    assert(avail_tags(g.len() as int, vis, pos).contains(t));

    lemma_sp_parse_props(g, g[t], inp, pos, vis2, m1);
    let (r, m2) = sp_parse(g, g[t], inp, pos, vis2, m1);

    // Entry `k` still holds the mark: its tag is stable, and were it
    // already finished, the rule would not count as in progress.
    assert(m2[pos].len() > k);
    assert(m2[pos][k].0 == t);
    assert forall|j: int| 0 <= j < k implies (#[trigger] m2[pos][j]).0 != t by {
        assert(m2[pos][j].0 == m1[pos][j].0);
        assert(m1[pos][j] == mem[pos][j]);
    }
    assert(m2[pos][k].1 is None) by {
        if m2[pos][k].1 is Some {
            lemma_find_entry_skip(m2[pos], t, k);
            assert(m2[pos].skip(k)[0] == m2[pos][k]);
            assert(find_entry(m2[pos], t) == Some(m2[pos][k].1));
            assert(!in_prog(m2).contains((pos, t)));
            assert(vis2.contains((pos, t)));
        }
    }

    let m3 = mem_resolve(m2, pos, k, t, r);
    assert(sp_parse(g, CombModel::Call(t), inp, pos, vis, mem) == (r, m3));

    // Filling the mark in removes exactly that rule from the set in
    // progress.
    assert(in_prog(m3) == vis) by {
        assert forall|pt: (int, int)|
            in_prog(m3).contains(pt) == vis.contains(pt) by {
            if pt.0 == pos {
                lemma_find_entry_update(m2[pos], k, (t, Some(r)), pt.1);
                if pt.1 == t {
                    assert(find_entry(m3[pos], t) == Some(Some(r)));
                    assert(!vis.contains((pos, t)));
                } else {
                    assert(find_entry(m3[pos], pt.1) == find_entry(m2[pos], pt.1));
                    assert(in_prog(m2).contains(pt) == vis2.contains(pt));
                    assert(vis2.contains(pt) == vis.contains(pt));
                }
            } else if 0 <= pt.0 < m2.len() {
                assert(m3[pt.0] == m2[pt.0]);
                assert(in_prog(m3).contains(pt) == in_prog(m2).contains(pt));
                assert(vis2.contains(pt) == vis.contains(pt));
            } else {
                assert(!in_prog(m3).contains(pt));
                assert(!in_prog(m2).contains(pt));
                assert(vis2.contains(pt) == vis.contains(pt));
            }
        }
        assert(in_prog(m3) =~= vis);
    }

    assert(wf_space(m3, n)) by {
        assert forall|p: int, j: int|
            0 <= p < m3.len() && 0 <= j < m3[p].len() implies wf_entry(
            #[trigger] m3[p][j],
            p,
            m3.len() as int,
        ) by {
            if p == pos && j == k {
            } else {
                assert(m3[p][j] == m2[p][j]);
                assert(wf_entry(m2[p][j], p, m2.len() as int));
            }
        }
    }

    assert(memo_extends(mem, m3)) by {
        assert(memo_extends(mem, m1));
        lemma_memo_extends_trans(mem, m1, m2);
        assert(memo_extends(m2, m3));
        lemma_memo_extends_trans(mem, m2, m3);
    }
}

/// [`lemma_sp_parse_props`] for the repetition loop; the loop never
/// fails, and its position only moves forward.
pub proof fn lemma_sp_rep_props(
    g: Seq<CombModel>,
    p: CombModel,
    inp: Seq<char>,
    pos: int,
    vis: Set<(int, int)>,
    mem: MemoModel,
    acc: Seq<ValModel>,
)
    requires
        sp_wf(g, p, inp, pos, vis),
        wf_space(mem, inp.len() as int),
        in_prog(mem) == vis,
    ensures
        wf_space(sp_rep(g, p, inp, pos, vis, mem, acc).1, inp.len() as int),
        in_prog(sp_rep(g, p, inp, pos, vis, mem, acc).1) == vis,
        memo_extends(mem, sp_rep(g, p, inp, pos, vis, mem, acc).1),
        sp_rep(g, p, inp, pos, vis, mem, acc).0 is Ok,
        sp_rep(g, p, inp, pos, vis, mem, acc).0 matches Ok((p2, _)) ==> pos <= p2 <= inp.len(),
    decreases inp.len() - pos, avail_tags(g.len() as int, vis, pos).len(), p, 2int,
{
    let n = inp.len() as int;
    lemma_sp_parse_props(g, p, inp, pos, vis, mem);
    let (r, m1) = sp_parse(g, p, inp, pos, vis, mem);
    match r {
        Err(_) => {},
        Ok((p1, v)) => {
            let p1c = clamp_pos(p1, pos, n);
            if p1c > pos {
                lemma_sp_rep_props(g, p, inp, p1c, vis, m1, acc.push(v));
                let (r2, m2) = sp_rep(g, p, inp, p1c, vis, m1, acc.push(v));
                lemma_memo_extends_trans(mem, m1, m2);
            }
        },
    }
}

} // verus!

verus! {

use crate::parser_space::clone_res;
use crate::value::eval_err;
use crate::value::eval_out;
use crate::value::vals_view;
use crate::value::lemma_vals_view_push;

/// Add one rule in progress: what [`SQLSpace::mark`] does to the set of
/// rules in progress.
pub proof fn lemma_mark_step(mem: MemoModel, pos: int, t: int, n: int)
    requires
        0 <= pos <= n,
        wf_space(mem, n),
        mem_find(mem, pos, t) is None,
    ensures
        wf_space(mem_mark(mem, pos, t), n),
        in_prog(mem_mark(mem, pos, t)) == in_prog(mem).insert((pos, t)),
{
    let k = mem[pos].len() as int;
    let m1 = mem_mark(mem, pos, t);
    assert(wf_space(m1, n)) by {
        assert forall|p: int, j: int|
            0 <= p < m1.len() && 0 <= j < m1[p].len() implies wf_entry(
            #[trigger] m1[p][j],
            p,
            m1.len() as int,
        ) by {
            if p == pos && j == k {
            } else {
                assert(m1[p][j] == mem[p][j]);
                assert(wf_entry(mem[p][j], p, mem.len() as int));
            }
        }
    }
    assert forall|pt: (int, int)|
        in_prog(m1).contains(pt) == in_prog(mem).insert((pos, t)).contains(pt) by {
        if pt.0 == pos {
            lemma_find_entry_push(mem[pos], (t, None), pt.1);
        } else if 0 <= pt.0 < mem.len() {
            assert(m1[pt.0] == mem[pt.0]);
        } else {
            assert(!in_prog(m1).contains(pt));
            assert(!in_prog(mem).contains(pt));
        }
    }
    assert(in_prog(m1) =~= in_prog(mem).insert((pos, t)));
}

/// Whether a character may appear in an identifier.
fn is_ident_char_e(c: char) -> (r: bool)
    ensures
        r == is_ident_char(c),
{
    ('a' <= c && c <= 'z') || ('A' <= c && c <= 'Z') || ('0' <= c && c <= '9') || c == '_'
}

/// The first position at or after `pos` that does not hold whitespace.
fn skip_ws_at(input: &str, pos: usize) -> (r: usize)
    requires
        pos <= input@.len(),
    ensures
        r as int == skip_ws(input@, pos as int),
        pos <= r <= input@.len(),
{
    let n = input.unicode_len();
    let mut cur = pos;
    while cur < n && is_space_char(input.get_char(cur))
        invariant
            pos <= cur <= n,
            n == input@.len(),
            skip_ws(input@, cur as int) == skip_ws(input@, pos as int),
        decreases n - cur,
    {
        cur = cur + 1;
    }
    cur
}

/// The end of the identifier-character run that starts at `pos`.
fn ident_end_at(input: &str, pos: usize) -> (r: usize)
    requires
        pos <= input@.len(),
    ensures
        r as int == ident_end(input@, pos as int),
        pos <= r <= input@.len(),
{
    let n = input.unicode_len();
    let mut cur = pos;
    while cur < n && is_ident_char_e(input.get_char(cur))
        invariant
            pos <= cur <= n,
            n == input@.len(),
            ident_end(input@, cur as int) == ident_end(input@, pos as int),
        decreases n - cur,
    {
        cur = cur + 1;
    }
    cur
}

/// Whether the input at `pos` starts with the literal.
fn token_match(input: &str, pos: usize, tok: &String) -> (r: bool)
    requires
        pos <= input@.len(),
    ensures
        r == (pos + tok@.len() <= input@.len() && input@.subrange(
            pos as int,
            pos as int + tok@.len() as int,
        ) == tok@),
{
    let n = input.unicode_len();
    let tn = tok.as_str().unicode_len();
    if tn > n - pos {
        return false;
    }
    let mut i: usize = 0;
    while i < tn
        invariant
            0 <= i <= tn,
            pos + tn <= n,
            n == input@.len(),
            tn == tok@.len(),
            forall|j: int| 0 <= j < i ==> input@[pos + j] == tok@[j],
        decreases tn - i,
    {
        if input.get_char(pos + i) != tok.as_str().get_char(i) {
            proof {
                assert(input@.subrange(pos as int, pos as int + tok@.len() as int)[i as int]
                    == input@[pos + i]);
            }
            return false;
        }
        i = i + 1;
    }
    proof {
        assert(input@.subrange(pos as int, pos as int + tok@.len() as int) =~= tok@);
    }
    true
}

/// One step of the recursive descent: the executable counterpart of
/// [`sp_parse`], returning exactly what the model says and leaving the
/// session exactly as the model says.
#[verifier::rlimit(80)]
pub(crate) fn parse_at(
    g: &Grammar,
    c: &Comb,
    input: &str,
    pos: usize,
    x: &mut SQLSpace,
    Ghost(vis): Ghost<Set<(int, int)>>,
) -> (r: PRes)
    requires
        sp_wf(rules_view(g.rules@), c.deep_view(), input@, pos as int, vis),
        wf_space(old(x)@, input@.len() as int),
        in_prog(old(x)@) == vis,
    ensures
        (res_view(r), final(x)@) == sp_parse(
            rules_view(g.rules@),
            c.deep_view(),
            input@,
            pos as int,
            vis,
            old(x)@,
        ),
    decreases input@.len() - pos,
        avail_tags(rules_view(g.rules@).len() as int, vis, pos as int).len(),
        *c,
        0int,
{
    let ghost gm = rules_view(g.rules@);
    let ghost inp = input@;
    let ghost n = input@.len() as int;
    let ghost mem0 = old(x)@;
    match c {
        Comb::Token(t) => {
            let ntot = input.unicode_len();
            if token_match(input, pos, t) {
                let tlen = t.as_str().unicode_len();
                Ok((pos + tlen, Value::Unit))
            } else {
                Err((pos, SQLError::MismatchToken(pos, t.clone())))
            }
        },
        Comb::Ident => {
            let e = ident_end_at(input, pos);
            if e > pos {
                let s = input.substring_char(pos, e).to_owned();
                Ok((e, Value::Str(s)))
            } else {
                Err((pos, SQLError::CannotFindIdent(pos)))
            }
        },
        Comb::Pad(p) => {
            let p1 = skip_ws_at(input, pos);
            let r = parse_at(g, p, input, p1, x, Ghost(vis));
            proof {
                lemma_sp_parse_props(gm, comb_view(**p), inp, p1 as int, vis, mem0);
            }
            match r {
                Ok((p2, v)) => {
                    let p3 = skip_ws_at(input, p2);
                    Ok((p3, v))
                },
                Err(e) => Err(e),
            }
        },
        Comb::Then(p, q) => {
            let r1 = parse_at(g, p, input, pos, x, Ghost(vis));
            proof {
                lemma_sp_parse_props(gm, comb_view(**p), inp, pos as int, vis, mem0);
            }
            match r1 {
                Ok((p1, v1)) => {
                    let r2 = parse_at(g, q, input, p1, x, Ghost(vis));
                    match r2 {
                        Ok((p2, v2)) => Ok((p2, Value::Pair(Box::new(v1), Box::new(v2)))),
                        Err((_, e)) => Err((pos, e)),
                    }
                },
                Err((_, e)) => Err((pos, e)),
            }
        },
        Comb::Else(p, q) => {
            let r1 = parse_at(g, p, input, pos, x, Ghost(vis));
            proof {
                lemma_sp_parse_props(gm, comb_view(**p), inp, pos as int, vis, mem0);
            }
            match r1 {
                Ok((p1, v1)) => Ok((p1, Value::Left(Box::new(v1)))),
                Err((_, e1)) => {
                    let r2 = parse_at(g, q, input, pos, x, Ghost(vis));
                    match r2 {
                        Ok((p2, v2)) => Ok((p2, Value::Right(Box::new(v2)))),
                        Err((_, e2)) => Err((
                            pos,
                            SQLError::Merge(Box::new(e1), Box::new(e2)),
                        )),
                    }
                },
            }
        },
        Comb::Repeat(p) => parse_rep(g, p, input, pos, x, Ghost(vis), Vec::new()),
        Comb::MapOut(f, p) => {
            let r = parse_at(g, p, input, pos, x, Ghost(vis));
            match r {
                Ok((p1, v)) => Ok((p1, eval_out(f, v))),
                Err(e) => Err(e),
            }
        },
        Comb::MapErr(f, p) => {
            let r = parse_at(g, p, input, pos, x, Ghost(vis));
            match r {
                Ok(o) => Ok(o),
                Err((pe, e)) => Err((pe, eval_err(f, pe, e))),
            }
        },
        Comb::Call(t) => {
            match x.probe(pos, *t) {
                MemoStatus::Hit(res) => res,
                MemoStatus::Busy => Err((pos, SQLError::Visited)),
                MemoStatus::Absent => {
                    proof {
                        assert(!vis.contains((pos as int, *t as int)));
                        lemma_mark_step(mem0, pos as int, *t as int, n);
                    }
                    let k = x.mark(pos, *t);
                    let ghost vis2 = vis.insert((pos as int, *t as int));
                    let ghost m1 = mem_mark(mem0, pos as int, *t as int);
                    proof {
                        assert(wf_comb(gm[*t as int], gm.len() as int));
                        assert(avail_tags(gm.len() as int, vis2, pos as int) =~= avail_tags(
                            gm.len() as int,
                            vis,
                            pos as int,
                        ).remove(*t as int));
                        lemma_avail_tags_finite(gm.len() as int, vis, pos as int);
                        assert(avail_tags(gm.len() as int, vis, pos as int).contains(*t as int));
                    }
                    let nrules = g.rules.len();
                    proof {
                        assert((*t as int) < (nrules as int));
                    }
                    let body = &g.rules[*t as usize];
                    proof {
                        assert(body.deep_view() == gm[*t as int]);
                    }
                    let r = parse_at(g, body, input, pos, x, Ghost(vis2));
                    proof {
                        lemma_sp_parse_props(gm, gm[*t as int], inp, pos as int, vis2, m1);
                        assert(x@[pos as int].len() >= m1[pos as int].len());
                    }
                    let out = clone_res(&r);
                    x.resolve(pos, k, *t, r);
                    out
                },
            }
        },
        Comb::Unbound => Err((pos, SQLError::Unknown)),
    }
}

/// The repetition loop: the executable counterpart of [`sp_rep`].
pub(crate) fn parse_rep(
    g: &Grammar,
    p: &Comb,
    input: &str,
    pos: usize,
    x: &mut SQLSpace,
    Ghost(vis): Ghost<Set<(int, int)>>,
    acc: Vec<Value>,
) -> (r: PRes)
    requires
        sp_wf(rules_view(g.rules@), p.deep_view(), input@, pos as int, vis),
        wf_space(old(x)@, input@.len() as int),
        in_prog(old(x)@) == vis,
    ensures
        (res_view(r), final(x)@) == sp_rep(
            rules_view(g.rules@),
            p.deep_view(),
            input@,
            pos as int,
            vis,
            old(x)@,
            vals_view(acc@),
        ),
    decreases input@.len() - pos,
        avail_tags(rules_view(g.rules@).len() as int, vis, pos as int).len(),
        *p,
        1int,
{
    let ghost gm = rules_view(g.rules@);
    let ghost inp = input@;
    let ghost mem0 = old(x)@;
    let ghost acc0 = acc@;
    let r = parse_at(g, p, input, pos, x, Ghost(vis));
    proof {
        lemma_sp_parse_props(gm, comb_view(*p), inp, pos as int, vis, mem0);
    }
    match r {
        Err(_) => Ok((pos, Value::List(acc))),
        Ok((p1, v)) => {
            if p1 > pos {
                let mut acc2 = acc;
                proof {
                    lemma_vals_view_push(acc0, v);
                }
                acc2.push(v);
                parse_rep(g, p, input, p1, x, Ghost(vis), acc2)
            } else {
                Ok((pos, Value::List(acc)))
            }
        },
    }
}

use crate::combinator::comb_view;

impl Tag {
    /// Parse `input` from `progress` with this combinator, against the
    /// rules of `g`, in the session `extra`.
    ///
    /// The outcome and the session afterwards are exactly
    /// [`sp_parse`] of the combinator, the input, the position and the
    /// session before — a pure function of them.  In particular two
    /// calls on equal sessions return equal outcomes, and a repeated
    /// call on the session the first one left behind replays cached
    /// outcomes instead of re-entering rule bodies.
    pub fn parse(&self, g: &Grammar, input: &str, progress: usize, extra: &mut SQLSpace) -> (r:
        PRes)
        requires
            wf_grammar(rules_view(g.rules@)),
            wf_comb(self.node.deep_view(), rules_view(g.rules@).len() as int),
            progress <= input@.len(),
            wf_space(old(extra)@, input@.len() as int),
            in_prog(old(extra)@) == Set::<(int, int)>::empty(),
        ensures
            (res_view(r), final(extra)@) == sp_parse(
                rules_view(g.rules@),
                self.node.deep_view(),
                input@,
                progress as int,
                Set::empty(),
                old(extra)@,
            ),
            wf_space(final(extra)@, input@.len() as int),
            in_prog(final(extra)@) == Set::<(int, int)>::empty(),
            r matches Ok((p2, _)) ==> progress <= p2 <= input@.len(),
    {
        proof {
            lemma_sp_parse_props(
                rules_view(g.rules@),
                self.node.deep_view(),
                input@,
                progress as int,
                Set::empty(),
                old(extra)@,
            );
        }
        parse_at(g, &self.node, input, progress, extra, Ghost(Set::empty()))
    }
}

} // verus!

verus! {

/// A cached outcome is replayed: running a rule at a position where its
/// outcome is already in the table returns that outcome and leaves the
/// whole session unchanged, so the rule body is entered at most once per
/// `(position, tag)` and session.
pub proof fn lemma_memo_transparent(
    g: Seq<CombModel>,
    t: int,
    inp: Seq<char>,
    pos: int,
    vis: Set<(int, int)>,
    mem: MemoModel,
    r: ResModel,
)
    requires
        sp_wf(g, CombModel::Call(t), inp, pos, vis),
        mem_find(mem, pos, t) == Some(Some(r)),
    ensures
        sp_parse(g, CombModel::Call(t), inp, pos, vis, mem) == (r, mem),
{
}

/// Ordered choice commits to the first branch that succeeds: when the
/// left branch succeeds, the outcome and the session afterwards are
/// those of the left parse alone — the right branch is never entered.
pub proof fn lemma_else_short_circuit(
    g: Seq<CombModel>,
    p: CombModel,
    q: CombModel,
    inp: Seq<char>,
    pos: int,
    vis: Set<(int, int)>,
    mem: MemoModel,
)
    requires
        sp_wf(g, CombModel::Else(Box::new(p), Box::new(q)), inp, pos, vis),
        sp_parse(g, p, inp, pos, vis, mem).0 is Ok,
    ensures
        ({
            let (r1, m1) = sp_parse(g, p, inp, pos, vis, mem);
            sp_parse(g, CombModel::Else(Box::new(p), Box::new(q)), inp, pos, vis, mem) == (
                Ok::<(int, ValModel), (int, ErrModel)>((r1->Ok_0.0, ValModel::Left(Box::new(r1->Ok_0.1)))),
                m1,
            )
        }),
{
}

/// Positions move forward through a sequence: the left parser resumes at
/// or after the start, the right parser resumes at or after that, and
/// the pair's success position is the right parser's.  When either side
/// fails, the failure is reported at the start of the sequence, not at
/// any position inside it.
pub proof fn lemma_then_monotone(
    g: Seq<CombModel>,
    p: CombModel,
    q: CombModel,
    inp: Seq<char>,
    pos: int,
    vis: Set<(int, int)>,
    mem: MemoModel,
)
    requires
        sp_wf(g, CombModel::Then(Box::new(p), Box::new(q)), inp, pos, vis),
        wf_space(mem, inp.len() as int),
        in_prog(mem) == vis,
    ensures
        ({
            let (r, _) = sp_parse(g, CombModel::Then(Box::new(p), Box::new(q)), inp, pos, vis, mem);
            let (r1, m1) = sp_parse(g, p, inp, pos, vis, mem);
            &&& r is Ok ==> r1 is Ok
            &&& (r is Ok && r1 is Ok) ==> {
                let p1 = r1->Ok_0.0;
                let (r2, _) = sp_parse(g, q, inp, p1, vis, m1);
                &&& pos <= p1 <= inp.len()
                &&& r2 is Ok
                &&& r->Ok_0.0 == r2->Ok_0.0
                &&& p1 <= r2->Ok_0.0 <= inp.len()
            }
            &&& r is Err ==> r->Err_0.0 == pos
        }),
{
    lemma_sp_parse_props(g, p, inp, pos, vis, mem);
    let (r1, m1) = sp_parse(g, p, inp, pos, vis, mem);
    match r1 {
        Ok((p1, _)) => {
            lemma_sp_parse_props(g, q, inp, clamp_pos(p1, pos, inp.len() as int), vis, m1);
        },
        Err(_) => {},
    }
}

/// Repetition is total: it never fails, and when the inner parser fails
/// straight away the result is the initial (empty) accumulator at the
/// original position, the session only changed by what the inner
/// attempt recorded.
pub proof fn lemma_repeat_total(
    g: Seq<CombModel>,
    p: CombModel,
    inp: Seq<char>,
    pos: int,
    vis: Set<(int, int)>,
    mem: MemoModel,
)
    requires
        sp_wf(g, CombModel::Repeat(Box::new(p)), inp, pos, vis),
        wf_space(mem, inp.len() as int),
        in_prog(mem) == vis,
    ensures
        sp_parse(g, CombModel::Repeat(Box::new(p)), inp, pos, vis, mem).0 is Ok,
        sp_parse(g, p, inp, pos, vis, mem).0 is Err ==> sp_parse(
            g,
            CombModel::Repeat(Box::new(p)),
            inp,
            pos,
            vis,
            mem,
        ).0 == Ok::<(int, ValModel), (int, ErrModel)>((pos, ValModel::List(Seq::empty()))),
        sp_parse(g, CombModel::Repeat(Box::new(p)), inp, pos, vis, mem).0 matches Ok((p2, _))
            ==> pos <= p2 <= inp.len(),
{
    lemma_sp_rep_props(g, p, inp, pos, vis, mem, Seq::empty());
}

} // verus!

verus! {

/// Parsing a rule twice is the same as parsing it once: whatever the
/// first run of `Call(t)` returned, a second run at the same position,
/// on the session the first one left behind, returns the identical
/// outcome and changes nothing.
pub proof fn lemma_parse_idempotent(
    g: Seq<CombModel>,
    t: int,
    inp: Seq<char>,
    pos: int,
    vis: Set<(int, int)>,
    mem: MemoModel,
)
    requires
        sp_wf(g, CombModel::Call(t), inp, pos, vis),
        wf_space(mem, inp.len() as int),
        in_prog(mem) == vis,
    ensures
        ({
            let (r1, m1) = sp_parse(g, CombModel::Call(t), inp, pos, vis, mem);
            sp_parse(g, CombModel::Call(t), inp, pos, vis, m1) == (r1, m1)
        }),
{
    match mem_find(mem, pos, t) {
        Some(_) => {},
        None => {
            if vis.contains((pos, t)) {
            } else {
                let k = mem[pos].len() as int;
                let vis2 = vis.insert((pos, t));
                let m1 = mem_mark(mem, pos, t);
                lemma_find_entry_none(mem[pos], t);
                lemma_mark_step(mem, pos, t, inp.len() as int);
                assert(wf_comb(g[t], g.len() as int));
                lemma_sp_parse_props(g, g[t], inp, pos, vis2, m1);
                let (r, m2) = sp_parse(g, g[t], inp, pos, vis2, m1);
                let m3 = mem_resolve(m2, pos, k, t, r);
                assert(sp_parse(g, CombModel::Call(t), inp, pos, vis, mem) == (r, m3));
                // In the final table the mark at `k` holds the outcome,
                // and it is the first entry for this tag, so a second
                // run replays it.
                assert(m2[pos].len() > k);
                assert forall|j: int| 0 <= j < k implies (#[trigger] m3[pos][j]).0 != t by {
                    assert(m2[pos][j].0 == m1[pos][j].0);
                    assert(m1[pos][j] == mem[pos][j]);
                    assert(m3[pos][j] == m2[pos][j]);
                }
                assert(m3[pos][k] == (t, Some(r)));
                lemma_find_entry_skip(m3[pos], t, k);
                assert(m3[pos].skip(k)[0] == m3[pos][k]);
                assert(mem_find(m3, pos, t) == Some(Some(r)));
            }
        },
    }
}

} // verus!

verus! {

/// The body of the chain rule `Expr := "a" Expr | "b"`, the smallest
/// grammar that exercises recursion through the memo table.
pub open spec fn chain_body() -> CombModel {
    CombModel::Else(
        Box::new(
            CombModel::Then(Box::new(CombModel::Token("a"@)), Box::new(CombModel::Call(0))),
        ),
        Box::new(CombModel::Token("b"@)),
    )
}

/// How many `'a'`s stand at `pos`.
pub open spec fn chain_run(inp: Seq<char>, pos: int) -> int
    decreases inp.len() - pos,
    when 0 <= pos <= inp.len()
{
    if pos < inp.len() && inp[pos] == 'a' {
        1 + chain_run(inp, pos + 1)
    } else {
        0
    }
}

pub proof fn lemma_chain_run_bounds(inp: Seq<char>, pos: int)
    requires
        0 <= pos <= inp.len(),
    ensures
        0 <= chain_run(inp, pos),
        pos + chain_run(inp, pos) <= inp.len(),
    decreases inp.len() - pos,
{
    if pos < inp.len() && inp[pos] == 'a' {
        lemma_chain_run_bounds(inp, pos + 1);
    }
}

/// The output of the chain rule after consuming `k` `'a'`s and one
/// `'b'`: one choice-and-pair layer per `'a'`, wrapping the final
/// right-branch match.
pub open spec fn chain_value(k: int) -> ValModel
    decreases k,
{
    if k <= 0 {
        ValModel::Right(Box::new(ValModel::Unit))
    } else {
        ValModel::Left(
            Box::new(ValModel::Pair(Box::new(ValModel::Unit), Box::new(chain_value(k - 1)))),
        )
    }
}

/// The chain grammar characterized on every input: run from a position
/// where its rule has nothing cached, it succeeds exactly when the run
/// of `'a'`s is closed by a `'b'`, resuming after that `'b'`, with a
/// nesting layer per `'a'`; on any other input it fails, blamed at the
/// position it started from — and it always returns.
pub proof fn lemma_chain_grammar(
    g: Seq<CombModel>,
    inp: Seq<char>,
    pos: int,
    vis: Set<(int, int)>,
    mem: MemoModel,
)
    requires
        g == seq![chain_body()],
        0 <= pos <= inp.len(),
        sp_wf(g, CombModel::Call(0), inp, pos, vis),
        wf_space(mem, inp.len() as int),
        in_prog(mem) == vis,
        forall|q: int| pos <= q < mem.len() ==> #[trigger] mem_find(mem, q, 0) is None,
    ensures
        ({
            let k = chain_run(inp, pos);
            let r = sp_parse(g, CombModel::Call(0), inp, pos, vis, mem).0;
            if pos + k < inp.len() && inp[pos + k] == 'b' {
                r == Ok::<(int, ValModel), (int, ErrModel)>((pos + k + 1, chain_value(k)))
            } else {
                r matches Err((pe, _)) && pe == pos
            }
        }),
    decreases inp.len() - pos,
{
    reveal_strlit("a");
    reveal_strlit("b");
    let body = chain_body();
    lemma_chain_run_bounds(inp, pos);
    let k = chain_run(inp, pos);

    // The rule is neither cached nor in progress here, so the call
    // marks it and runs the body.
    assert(mem_find(mem, pos, 0) is None);
    assert(!in_prog(mem).contains((pos, 0)));
    assert(!vis.contains((pos, 0)));
    let vis2 = vis.insert((pos, 0int));
    let m1 = mem_mark(mem, pos, 0);
    lemma_mark_step(mem, pos, 0, inp.len() as int);
    assert(wf_comb(g[0], g.len() as int));
    assert(sp_wf(g, body, inp, pos, vis2));
    let kk = mem[pos].len() as int;
    let br = sp_parse(g, body, inp, pos, vis2, m1);
    assert(sp_parse(g, CombModel::Call(0), inp, pos, vis, mem) == (
        br.0,
        mem_resolve(br.1, pos, kk, 0, br.0),
    ));

    // The body: try "a" then the rule again; only if that fails, "b".
    let pa = CombModel::Token("a"@);
    let pb = CombModel::Token("b"@);
    let left = CombModel::Then(Box::new(pa), Box::new(CombModel::Call(0)));
    let r1m = sp_parse(g, left, inp, pos, vis2, m1);
    let ra = sp_parse(g, pa, inp, pos, vis2, m1);

    if pos < inp.len() && inp[pos] == 'a' {
        // The literal matches: the left branch recurses at the next
        // position, where the induction hypothesis applies.
        assert(inp.subrange(pos, pos + 1) =~= "a"@);
        assert(ra == (
            Ok::<(int, ValModel), (int, ErrModel)>((pos + 1, ValModel::Unit)),
            m1,
        ));
        assert(clamp_pos(pos + 1, pos, inp.len() as int) == pos + 1);
        assert(sp_wf(g, CombModel::Call(0), inp, pos + 1, vis2));
        assert forall|q: int| pos + 1 <= q < m1.len() implies #[trigger] mem_find(
            m1,
            q,
            0,
        ) is None by {
            assert(m1.len() == mem.len());
            assert(m1[q] == mem[q]);
            assert(mem_find(mem, q, 0) is None);
        }
        lemma_chain_grammar(g, inp, pos + 1, vis2, m1);
        lemma_chain_run_bounds(inp, pos + 1);
        let k2 = chain_run(inp, pos + 1);
        assert(k == 1 + k2);
        let rin = sp_parse(g, CombModel::Call(0), inp, pos + 1, vis2, m1);
        if pos + 1 + k2 < inp.len() && inp[pos + 1 + k2] == 'b' {
            // The chain is closed: the inner call succeeded, and each
            // layer wraps its output.
            assert(rin.0 == Ok::<(int, ValModel), (int, ErrModel)>((
                pos + 1 + k2 + 1,
                chain_value(k2),
            )));
            assert(r1m.0 == Ok::<(int, ValModel), (int, ErrModel)>((
                pos + k + 1,
                ValModel::Pair(Box::new(ValModel::Unit), Box::new(chain_value(k2))),
            )));
            assert(br.0 == Ok::<(int, ValModel), (int, ErrModel)>((
                pos + k + 1,
                ValModel::Left(
                    Box::new(
                        ValModel::Pair(Box::new(ValModel::Unit), Box::new(chain_value(k2))),
                    ),
                ),
            )));
            assert(chain_value(k) == ValModel::Left(
                Box::new(ValModel::Pair(Box::new(ValModel::Unit), Box::new(chain_value(k2)))),
            ));
        } else {
            // The chain is not closed: the inner call failed, the left
            // branch fails at this position, and so does "b", since an
            // 'a' stands here.
            assert(rin.0 matches Err((pe, _)) && pe == pos + 1);
            assert(r1m.0 is Err);
            assert(r1m.0->Err_0.0 == pos);
            let rb = sp_parse(g, pb, inp, pos, vis2, r1m.1);
            assert(!(inp.subrange(pos, pos + 1) == "b"@)) by {
                assert(inp.subrange(pos, pos + 1)[0] == 'a');
            }
            assert(rb.0 is Err);
            assert(br.0 is Err && br.0->Err_0.0 == pos);
        }
    } else {
        // No 'a' here: the left branch fails on its first literal.
        assert(k == 0);
        assert(ra.0 is Err) by {
            if pos + 1 <= inp.len() {
                assert(inp.subrange(pos, pos + 1)[0] == inp[pos]);
            }
        }
        assert(r1m == (Err::<(int, ValModel), (int, ErrModel)>((pos, ra.0->Err_0.1)), m1));
        let rb = sp_parse(g, pb, inp, pos, vis2, m1);
        if pos < inp.len() && inp[pos] == 'b' {
            assert(inp.subrange(pos, pos + 1) =~= "b"@);
            assert(rb.0 == Ok::<(int, ValModel), (int, ErrModel)>((pos + 1, ValModel::Unit)));
            assert(br.0 == Ok::<(int, ValModel), (int, ErrModel)>((
                pos + 1,
                ValModel::Right(Box::new(ValModel::Unit)),
            )));
            assert(chain_value(0) == ValModel::Right(Box::new(ValModel::Unit)));
        } else {
            assert(rb.0 is Err) by {
                if pos + 1 <= inp.len() {
                    assert(inp.subrange(pos, pos + 1)[0] == inp[pos]);
                }
            }
            assert(br.0 is Err && br.0->Err_0.0 == pos);
        }
    }
}

} // verus!
