//! The per-session parse state: the memo table of one parse session.
//!
//! The table maps a position to a small ordered list of `(tag, outcome)`
//! pairs — an ordered list, not a hash map, because few distinct tags are
//! active at one position.  An entry whose outcome slot is still empty
//! marks a rule as in progress at that position; re-entering it there is
//! left recursion and is cut off by the guard.  Entries are never evicted:
//! they live exactly as long as the session.
use vstd::prelude::*;

use crate::error::ErrModel;
use crate::error::SQLError;
use crate::error::err_view;
use crate::value::ValModel;
use crate::value::Value;
use crate::value::val_view;

verus! {

/// What one parse attempt returns: the new position and output on
/// success, the blamed position and error on failure.
pub type PRes = Result<(usize, Value), (usize, SQLError)>;

/// The mathematical shape of a [`PRes`].
pub type ResModel = Result<(int, ValModel), (int, ErrModel)>;

/// The mathematical shape of a whole memo table.
pub type MemoModel = Seq<Seq<(int, Option<ResModel>)>>;

/// The mathematical shape of a [`PRes`] value.
pub open spec fn res_view(r: PRes) -> ResModel {
    match r {
        Ok((p, v)) => Ok((p as int, val_view(v))),
        Err((p, e)) => Err((p as int, err_view(e))),
    }
}

/// Copy a parse outcome.
pub fn clone_res(r: &PRes) -> (out: PRes)
    ensures
        res_view(out) == res_view(*r),
{
    match r {
        Ok((p, v)) => Ok((*p, v.clone())),
        Err((p, e)) => Err((*p, e.clone())),
    }
}

/// One memo entry: the rule's tag, and its outcome once it is known.
pub struct MemoEntry {
    pub tag: u64,
    pub val: Option<PRes>,
}

/// The mathematical shape of a [`MemoEntry`].
pub open spec fn entry_view(e: MemoEntry) -> (int, Option<ResModel>) {
    (
        e.tag as int,
        match e.val {
            Some(r) => Some(res_view(r)),
            None => None,
        },
    )
}

/// Element-wise [`entry_view`].
pub open spec fn entries_view(es: Seq<MemoEntry>) -> Seq<(int, Option<ResModel>)> {
    Seq::new(es.len(), |j: int| entry_view(es[j]))
}

/// The first entry recorded for a tag, if any: `Some(None)` marks a rule
/// that is still in progress at this position.
pub open spec fn find_entry(es: Seq<(int, Option<ResModel>)>, tag: int) -> Option<
    Option<ResModel>,
>
    decreases es.len(),
{
    if es.len() == 0 {
        None
    } else if es[0].0 == tag {
        Some(es[0].1)
    } else {
        find_entry(es.drop_first(), tag)
    }
}

pub proof fn lemma_find_entry_skip(es: Seq<(int, Option<ResModel>)>, tag: int, i: int)
    requires
        0 <= i <= es.len(),
        forall|j: int| 0 <= j < i ==> (#[trigger] es[j]).0 != tag,
    ensures
        find_entry(es, tag) == find_entry(es.skip(i), tag),
    decreases i,
{
    if i == 0 {
        assert(es.skip(0) =~= es);
    } else {
        lemma_find_entry_skip(es, tag, i - 1);
        assert(es.skip(i - 1).len() > 0);
        assert(es.skip(i - 1)[0] == es[i - 1]);
        assert(es[i - 1].0 != tag);
        assert(es.skip(i - 1).drop_first() =~= es.skip(i));
        assert(find_entry(es.skip(i - 1), tag) == find_entry(es.skip(i - 1).drop_first(), tag));
    }
}

/// The memo lookup for `(pos, tag)`.
pub open spec fn mem_find(mem: MemoModel, pos: int, tag: int) -> Option<Option<ResModel>> {
    find_entry(mem[pos], tag)
}

/// Record a rule as in progress at a position.
pub open spec fn mem_mark(mem: MemoModel, pos: int, tag: int) -> MemoModel {
    mem.update(pos, mem[pos].push((tag, None)))
}

/// Fill in the outcome of entry `k` at a position.
pub open spec fn mem_resolve(mem: MemoModel, pos: int, k: int, tag: int, r: ResModel) -> MemoModel {
    mem.update(pos, mem[pos].update(k, (tag, Some(r))))
}

/// The rules that are in progress, per position.
pub open spec fn in_prog(mem: MemoModel) -> Set<(int, int)> {
    Set::new(
        |pt: (int, int)| 0 <= pt.0 < mem.len() && mem_find(mem, pt.0, pt.1) == Some(
            None::<ResModel>,
        ),
    )
}

/// A recorded success resumes no earlier than its own position and within
/// the input.
pub open spec fn wf_entry(e: (int, Option<ResModel>), pos: int, n: int) -> bool {
    match e.1 {
        Some(r) => match r {
            Ok((p2, _)) => pos <= p2 < n,
            Err(_) => true,
        },
        None => true,
    }
}

/// A memo table fits an input of `inp_len` characters: one slot per
/// position including the end, every recorded success in range.
pub open spec fn wf_space(mem: MemoModel, inp_len: int) -> bool {
    &&& mem.len() == inp_len + 1
    &&& forall|p: int, j: int|
        0 <= p < mem.len() && 0 <= j < mem[p].len() ==> wf_entry(#[trigger] mem[p][j], p, mem.len() as int)
}

/// What a memo probe saw for `(position, tag)`.
pub enum MemoStatus {
    /// A finished outcome is cached.
    Hit(PRes),
    /// The rule is in progress at this position: left recursion.
    Busy,
    /// Nothing is recorded.
    Absent,
}

/// One parse session's state.  It is created per top-level parse call,
/// mutated during the descent, and discarded afterwards.
pub struct SQLSpace {
    pub slots: Vec<Vec<MemoEntry>>,
}

impl SQLSpace {
    /// The mathematical shape of the whole table.
    pub open spec fn view(&self) -> MemoModel {
        Seq::new(self.slots@.len(), |p: int| entries_view(self.slots@[p]@))
    }

    /// A fresh session for an input of `n` characters.
    pub fn new_sized(n: usize) -> (s: SQLSpace)
        requires
            n < usize::MAX,
        ensures
            s@.len() == n + 1,
            forall|p: int| 0 <= p < s@.len() ==> (#[trigger] s@[p]).len() == 0,
            wf_space(s@, n as int),
            in_prog(s@) =~= Set::<(int, int)>::empty(),
    {
        let mut slots: Vec<Vec<MemoEntry>> = Vec::new();
        let mut i: usize = 0;
        while i < n + 1
            invariant
                i <= n + 1,
                n < usize::MAX,
                slots@.len() == i as int,
                forall|p: int| 0 <= p < i ==> (#[trigger] slots@[p])@.len() == 0,
            decreases n + 1 - i,
        {
            slots.push(Vec::new());
            i = i + 1;
        }
        let s = SQLSpace { slots };
        proof {
            assert forall|pt: (int, int)| !(in_prog(s@).contains(pt)) by {
                if 0 <= pt.0 < s@.len() {
                    assert(s@[pt.0].len() == 0);
                }
            }
        }
        s
    }

    /// A fresh session for the given input.
    pub fn new(input: &str) -> (s: SQLSpace)
        requires
            input@.len() < usize::MAX,
        ensures
            s@.len() == input@.len() + 1,
            forall|p: int| 0 <= p < s@.len() ==> (#[trigger] s@[p]).len() == 0,
            wf_space(s@, input@.len() as int),
            in_prog(s@) =~= Set::<(int, int)>::empty(),
    {
        SQLSpace::new_sized(input.unicode_len())
    }

    /// Probe the memo table for `(progress, tag)`.
    pub fn probe(&self, progress: usize, tag: u64) -> (r: MemoStatus)
        requires
            (progress as int) < self@.len(),
        ensures
            match r {
                MemoStatus::Hit(res) => mem_find(self@, progress as int, tag as int) == Some(
                    Some(res_view(res)),
                ),
                MemoStatus::Busy => mem_find(self@, progress as int, tag as int) == Some(
                    None::<ResModel>,
                ),
                MemoStatus::Absent => mem_find(self@, progress as int, tag as int) == None::<
                    Option<ResModel>,
                >,
            },
    {
        let es = &self.slots[progress];
        let ghost ms = entries_view(es@);
        let n = es.len();
        let mut i: usize = 0;
        while i < n
            invariant
                i <= n,
                n == es@.len(),
                ms == entries_view(es@),
                ms.len() == n as int,
                (progress as int) < self@.len(),
                self@[progress as int] == ms,
                forall|j: int| 0 <= j < i ==> (#[trigger] ms[j]).0 != tag as int,
            decreases n - i,
        {
            if es[i].tag == tag {
                proof {
                    lemma_find_entry_skip(ms, tag as int, i as int);
                    assert(ms.skip(i as int)[0] == ms[i as int]);
                }
                match &es[i].val {
                    Some(r) => {
                        return MemoStatus::Hit(clone_res(r));
                    },
                    None => {
                        return MemoStatus::Busy;
                    },
                }
            }
            i = i + 1;
        }
        proof {
            lemma_find_entry_skip(ms, tag as int, n as int);
            assert(ms.skip(n as int).len() == 0);
        }
        MemoStatus::Absent
    }

    /// Replay a cached outcome, as a caller outside the engine sees the
    /// table: an entry that is still in progress reads as absent.
    pub fn replay(&self, progress: usize, tag: u64) -> (r: Option<PRes>)
        requires
            (progress as int) < self@.len(),
        ensures
            match mem_find(self@, progress as int, tag as int) {
                Some(opt) => match opt {
                    Some(m) => r is Some && res_view(r->0) == m,
                    None => r is None,
                },
                None => r is None,
            },
    {
        match self.probe(progress, tag) {
            MemoStatus::Hit(res) => Some(res),
            MemoStatus::Busy => None,
            MemoStatus::Absent => None,
        }
    }

    /// Record a finished outcome for `(progress, tag)`.
    pub fn record(&mut self, progress: usize, tag: u64, result: PRes)
        requires
            (progress as int) < old(self)@.len(),
            wf_entry((tag as int, Some(res_view(result))), progress as int, old(self)@.len() as int),
        ensures
            final(self)@ == old(self)@.update(
                progress as int,
                old(self)@[progress as int].push((tag as int, Some(res_view(result)))),
            ),
    {
        let ghost m0 = self@;
        let es = &mut self.slots[progress];
        es.push(MemoEntry { tag, val: Some(result) });
        proof {
            assert(entries_view(self.slots@[progress as int]@) =~= m0[progress as int].push(
                (tag as int, Some(res_view(result))),
            ));
            assert(self@ =~= m0.update(
                progress as int,
                m0[progress as int].push((tag as int, Some(res_view(result)))),
            ));
        }
    }

    /// Mark `(progress, tag)` as in progress; returns the index of the
    /// new entry, to be filled in by [`SQLSpace::resolve`].
    pub(crate) fn mark(&mut self, progress: usize, tag: u64) -> (k: usize)
        requires
            (progress as int) < old(self)@.len(),
        ensures
            final(self)@ == mem_mark(old(self)@, progress as int, tag as int),
            k as int == old(self)@[progress as int].len(),
    {
        let ghost m0 = self@;
        let es = &mut self.slots[progress];
        let k = es.len();
        es.push(MemoEntry { tag, val: None });
        proof {
            assert(entries_view(self.slots@[progress as int]@) =~= m0[progress as int].push(
                (tag as int, None::<ResModel>),
            ));
            assert(self@ =~= mem_mark(m0, progress as int, tag as int));
        }
        k
    }

    /// Fill in the outcome of the entry that [`SQLSpace::mark`] made.
    pub(crate) fn resolve(&mut self, progress: usize, k: usize, tag: u64, result: PRes)
        requires
            (progress as int) < old(self)@.len(),
            (k as int) < old(self)@[progress as int].len(),
        ensures
            final(self)@ == mem_resolve(
                old(self)@,
                progress as int,
                k as int,
                tag as int,
                res_view(result),
            ),
    {
        let ghost m0 = self@;
        let es = &mut self.slots[progress];
        es.set(k, MemoEntry { tag, val: Some(result) });
        proof {
            assert(entries_view(self.slots@[progress as int]@) =~= m0[progress as int].update(
                k as int,
                (tag as int, Some(res_view(result))),
            ));
            assert(self@ =~= mem_resolve(
                m0,
                progress as int,
                k as int,
                tag as int,
                res_view(result),
            ));
        }
    }
}

} // verus!

verus! {

pub proof fn lemma_find_entry_none(es: Seq<(int, Option<ResModel>)>, tag: int)
    ensures
        find_entry(es, tag) is None <==> forall|j: int|
            0 <= j < es.len() ==> (#[trigger] es[j]).0 != tag,
    decreases es.len(),
{
    if es.len() > 0 {
        lemma_find_entry_none(es.drop_first(), tag);
        assert forall|j: int| 1 <= j < es.len() implies es.drop_first()[j - 1] == es[j] by {}
    }
}

/// The index of the first entry for a tag that was found.
pub proof fn lemma_find_entry_witness(es: Seq<(int, Option<ResModel>)>, tag: int) -> (j: int)
    requires
        find_entry(es, tag) is Some,
    ensures
        0 <= j < es.len(),
        es[j].0 == tag,
        Some(es[j].1) == find_entry(es, tag),
        forall|i: int| 0 <= i < j ==> (#[trigger] es[i]).0 != tag,
    decreases es.len(),
{
    if es[0].0 == tag {
        0
    } else {
        let j0 = lemma_find_entry_witness(es.drop_first(), tag);
        assert forall|i: int| 1 <= i < j0 + 1 implies (#[trigger] es[i]).0 != tag by {
            assert(es.drop_first()[i - 1] == es[i]);
        }
        j0 + 1
    }
}

pub proof fn lemma_find_entry_push(
    es: Seq<(int, Option<ResModel>)>,
    x: (int, Option<ResModel>),
    tag: int,
)
    ensures
        find_entry(es.push(x), tag) == if find_entry(es, tag) is Some {
            find_entry(es, tag)
        } else if x.0 == tag {
            Some(x.1)
        } else {
            None
        },
    decreases es.len(),
{
    if es.len() == 0 {
        assert(es.push(x)[0] == x);
        assert(es.push(x).drop_first() =~= Seq::<(int, Option<ResModel>)>::empty());
        assert(find_entry(es.push(x).drop_first(), tag) is None);
    } else {
        lemma_find_entry_push(es.drop_first(), x, tag);
        assert(es.push(x)[0] == es[0]);
        assert(es.push(x).drop_first() =~= es.drop_first().push(x));
    }
}

pub proof fn lemma_find_entry_update(
    es: Seq<(int, Option<ResModel>)>,
    k: int,
    x: (int, Option<ResModel>),
    tag: int,
)
    requires
        0 <= k < es.len(),
        es[k].0 == x.0,
        forall|j: int| 0 <= j < k ==> (#[trigger] es[j]).0 != x.0,
    ensures
        tag == x.0 ==> find_entry(es.update(k, x), tag) == Some(x.1),
        tag != x.0 ==> find_entry(es.update(k, x), tag) == find_entry(es, tag),
    decreases es.len(),
{
    if k == 0 {
        assert(es.update(0, x)[0] == x);
        assert(es.update(0, x).drop_first() =~= es.drop_first());
    } else {
        assert forall|j: int| 0 <= j < k - 1 implies (#[trigger] es.drop_first()[j]).0 != x.0 by {
            assert(es.drop_first()[j] == es[j + 1]);
        }
        assert(es.drop_first()[k - 1] == es[k]);
        lemma_find_entry_update(es.drop_first(), k - 1, x, tag);
        assert(es.update(k, x)[0] == es[0]);
        assert(es.update(k, x).drop_first() =~= es.drop_first().update(k - 1, x));
        assert(es[0].0 != x.0);
    }
}

/// The second table keeps everything the first holds: the same slots,
/// every entry's tag, and every finished outcome; an in-progress entry
/// may have been finished, and new entries may follow.
pub open spec fn memo_extends(m1: MemoModel, m2: MemoModel) -> bool {
    &&& m2.len() == m1.len()
    &&& forall|p: int| 0 <= p < m1.len() ==> (#[trigger] m1[p]).len() <= m2[p].len()
    &&& forall|p: int, j: int|
        0 <= p < m1.len() && 0 <= j < m1[p].len() ==> (#[trigger] m2[p][j]).0 == m1[p][j].0 && (
        m1[p][j].1 is Some ==> m2[p][j].1 == m1[p][j].1)
}

pub proof fn lemma_memo_extends_refl(m: MemoModel)
    ensures
        memo_extends(m, m),
{
}

pub proof fn lemma_memo_extends_trans(m1: MemoModel, m2: MemoModel, m3: MemoModel)
    requires
        memo_extends(m1, m2),
        memo_extends(m2, m3),
    ensures
        memo_extends(m1, m3),
{
}

} // verus!
