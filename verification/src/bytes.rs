//! A growable byte buffer, aligned enough to hold machine words, with a
//! second face: the same handle can instead carry a plain counter, for
//! columns whose rows have no stored bytes.
//!
//! A handle is created either as a buffer ([`Bytes::new`]) or as a
//! counter ([`Bytes::new_as_usize`]); the two kinds have disjoint
//! operations and a handle never changes kind.
use vstd::prelude::*;

verus! {

/// A byte buffer, or a row counter.
pub struct Bytes {
    data: Vec<u8>,
    count: usize,
    numeric: bool,
}

impl Bytes {
    /// Whether this handle is a counter rather than a buffer.
    pub closed spec fn is_num(&self) -> bool {
        self.numeric
    }

    /// The counter's value.
    pub closed spec fn num(&self) -> usize {
        self.count
    }

    /// The buffer's contents.
    pub closed spec fn view(&self) -> Seq<u8> {
        self.data@
    }

    /// An empty buffer.
    pub fn new() -> (r: Bytes)
        ensures
            !r.is_num(),
            r@ == Seq::<u8>::empty(),
    {
        Bytes { data: Vec::new(), count: 0, numeric: false }
    }

    /// A counter starting at zero.
    pub fn new_as_usize() -> (r: Bytes)
        ensures
            r.is_num(),
            r.num() == 0,
    {
        Bytes { data: Vec::new(), count: 0, numeric: true }
    }

    /// The counter's value.
    pub fn as_u64(&self) -> (r: usize)
        requires
            self.is_num(),
        ensures
            r == self.num(),
    {
        self.count
    }

    /// Count `x` more rows.
    pub fn add(&mut self, x: usize)
        requires
            old(self).is_num(),
            old(self).num() + x <= usize::MAX,
        ensures
            final(self).is_num(),
            final(self).num() == old(self).num() + x,
    {
        self.count = self.count + x;
    }

    /// How many bytes the buffer holds.
    pub fn len(&self) -> (r: usize)
        ensures
            r == self@.len(),
    {
        self.data.len()
    }

    /// Append zero bytes until the length is a multiple of `align`.
    pub fn pad(&mut self, align: usize)
        requires
            0 < align <= 128,
            old(self)@.len() + align <= usize::MAX,
        ensures
            final(self).is_num() == old(self).is_num(),
            final(self)@ == old(self)@ + Seq::new(
                pad_len(old(self)@.len() as int, align as int),
                |i: int| 0u8,
            ),
    {
        let ghost v0 = self@;
        let n = self.len();
        if n % align == 0 {
            proof {
                assert(self@ =~= v0 + Seq::new(pad_len(v0.len() as int, align as int), |i: int| 0u8));
            }
            return ;
        }
        let rest = align - n % align;
        let mut i: usize = 0;
        while i < rest
            invariant
                self.is_num() == old(self).is_num(),
                i <= rest,
                self@ == v0 + Seq::new(i as nat, |j: int| 0u8),
            decreases rest - i,
        {
            self.data.push(0);
            proof {
                assert(self@ =~= v0 + Seq::new((i + 1) as nat, |j: int| 0u8));
            }
            i = i + 1;
        }
        proof {
            assert(self@ =~= v0 + Seq::new(pad_len(v0.len() as int, align as int), |i: int| 0u8));
        }
    }

    /// Append one byte.
    pub fn push(&mut self, byte: u8)
        ensures
            final(self).is_num() == old(self).is_num(),
            final(self)@ == old(self)@.push(byte),
    {
        self.data.push(byte);
    }

    /// Remove and return the last byte.
    pub fn pop(&mut self) -> (r: Option<u8>)
        ensures
            final(self).is_num() == old(self).is_num(),
            old(self)@.len() == 0 ==> r is None && final(self)@ == old(self)@,
            old(self)@.len() > 0 ==> r == Some(old(self)@.last()) && final(self)@ == old(
                self,
            )@.drop_last(),
    {
        self.data.pop()
    }

    /// Append a whole slice.
    pub fn extend(&mut self, slice: &[u8])
        ensures
            final(self).is_num() == old(self).is_num(),
            final(self)@ == old(self)@ + slice@,
    {
        let ghost v0 = self@;
        let n = slice.len();
        let mut i: usize = 0;
        while i < n
            invariant
                self.is_num() == old(self).is_num(),
                i <= n,
                n == slice@.len(),
                self@ == v0 + slice@.subrange(0, i as int),
            decreases n - i,
        {
            let b = *vstd::slice::slice_index_get(slice, i);
            self.data.push(b);
            proof {
                assert(self@ =~= v0 + slice@.subrange(0, (i + 1) as int));
            }
            i = i + 1;
        }
        proof {
            assert(slice@.subrange(0, n as int) =~= slice@);
        }
    }

    /// A buffer holding `len` copies of one byte.
    pub fn filled(len: usize, byte: u8) -> (r: Bytes)
        ensures
            !r.is_num(),
            r@ == Seq::new(len as nat, |i: int| byte),
    {
        let mut v: Vec<u8> = Vec::new();
        let mut i: usize = 0;
        while i < len
            invariant
                i <= len,
                v@ == Seq::new(i as nat, |j: int| byte),
            decreases len - i,
        {
            v.push(byte);
            proof {
                assert(v@ =~= Seq::new((i + 1) as nat, |j: int| byte));
            }
            i = i + 1;
        }
        Bytes { data: v, count: 0, numeric: false }
    }

    /// The bytes from `start` up to `end`.
    pub fn slice(&self, start: usize, end: usize) -> (r: &[u8])
        requires
            start <= end <= self@.len(),
        ensures
            r@ == self@.subrange(start as int, end as int),
    {
        vstd::slice::slice_subrange(self.data.as_slice(), start, end)
    }
}

/// How many zero bytes padding to a multiple of `align` appends.
pub open spec fn pad_len(len: int, align: int) -> nat {
    (if len % align == 0 {
        0
    } else {
        align - len % align
    }) as nat
}

} // verus!
