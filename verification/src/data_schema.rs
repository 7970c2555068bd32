//! The in-memory schema format: a schema is a byte string read from the
//! end, whose last byte names the type; a pair type carries its two
//! children, its layout word, and two little-endian offsets.
//!
//! Zero bytes at the end are padding and are skipped by decoding; a pair
//! body ends with its real tag directly, so the column and layout
//! functions never meet a padding tag on well-formed bytes.
use vstd::prelude::*;

use crate::bytes::Bytes;

verus! {

/// A marker type knows its one-byte tag.
pub trait NumOf {
    const NUM: u8;
}

/// Marker types whose values are stored inline at a fixed size.
pub trait Primitive {
    /// The stored size and alignment of one value.
    fn layout() -> (usize, usize);
}

pub struct Pad;

pub struct Pair;

pub struct Str;

pub struct Nil;

pub struct F64;

pub struct F32;

pub struct U8;

pub struct U16;

pub struct U32;

pub struct U64;

pub struct I8;

pub struct I16;

pub struct I32;

pub struct I64;

impl NumOf for Pad {
    const NUM: u8 = 0;
}

impl NumOf for Pair {
    const NUM: u8 = 1;
}

impl NumOf for Str {
    const NUM: u8 = 2;
}

impl NumOf for Nil {
    const NUM: u8 = 3;
}

impl NumOf for F64 {
    const NUM: u8 = 4;
}

impl NumOf for F32 {
    const NUM: u8 = 5;
}

impl NumOf for U8 {
    const NUM: u8 = 6;
}

impl NumOf for U16 {
    const NUM: u8 = 7;
}

impl NumOf for U32 {
    const NUM: u8 = 8;
}

impl NumOf for U64 {
    const NUM: u8 = 9;
}

impl NumOf for I8 {
    const NUM: u8 = 10;
}

impl NumOf for I16 {
    const NUM: u8 = 11;
}

impl NumOf for I32 {
    const NUM: u8 = 12;
}

impl NumOf for I64 {
    const NUM: u8 = 13;
}

/// The tag at the end of a schema, as an enumeration.
#[derive(Clone, Copy, Debug, PartialEq, Eq, Structural)]
pub enum Tag {
    Pad,
    Pair,
    Str,
    Nil,
    F64,
    F32,
    U8,
    U16,
    U32,
    U64,
    I8,
    I16,
    I32,
    I64,
}

/// The byte of each tag.
pub open spec fn tag_num(t: Tag) -> u8 {
    match t {
        Tag::Pad => 0,
        Tag::Pair => 1,
        Tag::Str => 2,
        Tag::Nil => 3,
        Tag::F64 => 4,
        Tag::F32 => 5,
        Tag::U8 => 6,
        Tag::U16 => 7,
        Tag::U32 => 8,
        Tag::U64 => 9,
        Tag::I8 => 10,
        Tag::I16 => 11,
        Tag::I32 => 12,
        Tag::I64 => 13,
    }
}

impl Tag {
    /// The tag named by a byte.
    pub fn of(value: u8) -> (r: Tag)
        requires
            value <= 13,
        ensures
            tag_num(r) == value,
    {
        if value == 0 {
            Tag::Pad
        } else if value == 1 {
            Tag::Pair
        } else if value == 2 {
            Tag::Str
        } else if value == 3 {
            Tag::Nil
        } else if value == 4 {
            Tag::F64
        } else if value == 5 {
            Tag::F32
        } else if value == 6 {
            Tag::U8
        } else if value == 7 {
            Tag::U16
        } else if value == 8 {
            Tag::U32
        } else if value == 9 {
            Tag::U64
        } else if value == 10 {
            Tag::I8
        } else if value == 11 {
            Tag::I16
        } else if value == 12 {
            Tag::I32
        } else {
            Tag::I64
        }
    }
}

/// The value of the two little-endian bytes at the end.
pub open spec fn read_u16_end(b: Seq<u8>) -> int {
    b[b.len() - 2] + 256 * b[b.len() - 1]
}

/// The value of the four little-endian bytes at the end.
pub open spec fn read_u32_end(b: Seq<u8>) -> int {
    b[b.len() - 4] + 0x100 * b[b.len() - 3] + 0x1_0000 * b[b.len() - 2] + 0x100_0000 * b[b.len()
        - 1]
}

/// The value of the eight little-endian bytes at the end.
pub open spec fn read_u64_end(b: Seq<u8>) -> int {
    b[b.len() - 8] + 0x100 * b[b.len() - 7] + 0x1_0000 * b[b.len() - 6] + 0x100_0000 * b[b.len()
        - 5] + 0x1_0000_0000 * b[b.len() - 4] + 0x100_0000_0000 * b[b.len() - 3]
        + 0x1_0000_0000_0000 * b[b.len() - 2] + 0x100_0000_0000_0000 * b[b.len() - 1]
}

/// The two little-endian bytes of a 16-bit value.
pub open spec fn u16_bytes(v: u16) -> Seq<u8> {
    seq![(v % 256) as u8, ((v / 256) % 256) as u8]
}

/// The eight little-endian bytes of a 64-bit value.
pub open spec fn u64_bytes(v: u64) -> Seq<u8> {
    seq![
        (v % 256) as u8,
        ((v / 0x100) % 256) as u8,
        ((v / 0x1_0000) % 256) as u8,
        ((v / 0x100_0000) % 256) as u8,
        ((v / 0x1_0000_0000) % 256) as u8,
        ((v / 0x100_0000_0000) % 256) as u8,
        ((v / 0x1_0000_0000_0000) % 256) as u8,
        ((v / 0x100_0000_0000_0000) % 256) as u8,
    ]
}

/// A schema body whose last byte is a real tag, with well-formed
/// children if it is a pair.
pub open spec fn wf_ds_core(b: Seq<u8>) -> bool
    decreases b.len(),
{
    &&& b.len() > 0
    &&& 1 <= b.last() <= 13
    &&& (b.last() == 1 ==> {
        let rest = b.drop_last();
        &&& rest.len() >= 16
        &&& {
            let a = read_u16_end(rest);
            let sum = read_u16_end(rest.subrange(0, rest.len() - 2));
            let data = rest.subrange(0, rest.len() - 12);
            &&& a <= sum <= data.len()
            &&& wf_ds_core(data.subrange(a, sum))
            &&& wf_ds_core(data.subrange(0, a))
        }
    })
}

/// A schema byte string: a well-formed body, possibly followed by
/// padding bytes.
pub open spec fn wf_ds(b: Seq<u8>) -> bool
    decreases b.len(),
{
    &&& b.len() > 0
    &&& (if b.last() == 0 {
        wf_ds(b.drop_last())
    } else {
        wf_ds_core(b)
    })
}

/// One decoded layer of a schema.
pub enum DSEModel {
    I64,
    I32,
    I16,
    I8,
    U64,
    U32,
    U16,
    U8,
    Nil,
    F32,
    F64,
    Str,
    List(Seq<u8>),
    Enum(int, Seq<u8>, Seq<u8>),
    Pair(int, int, Seq<u8>, Seq<u8>),
}

/// What decoding a schema byte string yields: padding is skipped, a
/// pair carries its layout and its two children's bytes, and every
/// other tag stands alone.
pub open spec fn ds_decode(b: Seq<u8>) -> DSEModel
    decreases b.len(),
    when wf_ds(b)
{
    if b.last() == 0 {
        ds_decode(b.drop_last())
    } else if b.last() == 1 {
        let rest = b.drop_last();
        let a = read_u16_end(rest);
        let sum = read_u16_end(rest.subrange(0, rest.len() - 2));
        let m = read_u64_end(rest.subrange(0, rest.len() - 4));
        let data = rest.subrange(0, rest.len() - 12);
        DSEModel::Pair(m / 256, m % 256, data.subrange(a, sum), data.subrange(0, a))
    } else if b.last() == 2 {
        DSEModel::Str
    } else if b.last() == 3 {
        DSEModel::Nil
    } else if b.last() == 4 {
        DSEModel::F64
    } else if b.last() == 5 {
        DSEModel::F32
    } else if b.last() == 6 {
        DSEModel::U8
    } else if b.last() == 7 {
        DSEModel::U16
    } else if b.last() == 8 {
        DSEModel::U32
    } else if b.last() == 9 {
        DSEModel::U64
    } else if b.last() == 10 {
        DSEModel::I8
    } else if b.last() == 11 {
        DSEModel::I16
    } else if b.last() == 12 {
        DSEModel::I32
    } else {
        DSEModel::I64
    }
}

/// The stored size of one value of a schema.
pub open spec fn spec_scalar_size(b: Seq<u8>) -> int {
    if b.last() == 1 {
        let rest = b.drop_last();
        read_u64_end(rest.subrange(0, rest.len() - 8)) / 256
    } else if b.last() == 2 {
        16
    } else if b.last() == 3 {
        0
    } else if b.last() == 4 || b.last() == 9 || b.last() == 13 {
        8
    } else if b.last() == 5 || b.last() == 8 || b.last() == 12 {
        4
    } else if b.last() == 7 || b.last() == 11 {
        2
    } else {
        1
    }
}

/// The alignment of one value of a schema.
pub open spec fn spec_scalar_align(b: Seq<u8>) -> int {
    if b.last() == 1 {
        let rest = b.drop_last();
        read_u64_end(rest.subrange(0, rest.len() - 8)) % 256
    } else if b.last() == 2 {
        8
    } else if b.last() == 3 {
        0
    } else if b.last() == 4 || b.last() == 9 || b.last() == 13 {
        8
    } else if b.last() == 5 || b.last() == 8 || b.last() == 12 {
        4
    } else if b.last() == 7 || b.last() == 11 {
        2
    } else {
        1
    }
}

/// How many buffer columns one value of a schema needs: one for a fixed
/// size value, two for a string, the children's total for a pair.
pub open spec fn spec_num_columns(b: Seq<u8>) -> int
    decreases b.len(),
    when wf_ds_core(b)
{
    if b.last() == 1 {
        let rest = b.drop_last();
        let a = read_u16_end(rest);
        let sum = read_u16_end(rest.subrange(0, rest.len() - 2));
        let data = rest.subrange(0, rest.len() - 12);
        spec_num_columns(data.subrange(a, sum)) + spec_num_columns(data.subrange(0, a))
    } else if b.last() == 2 {
        2
    } else {
        1
    }
}

/// The text a schema reads as.
pub open spec fn spec_render(b: Seq<u8>) -> Seq<char>
    decreases b.len(),
    when wf_ds_core(b)
{
    if b.last() == 1 {
        let rest = b.drop_last();
        let a = read_u16_end(rest);
        let sum = read_u16_end(rest.subrange(0, rest.len() - 2));
        let data = rest.subrange(0, rest.len() - 12);
        "Pair("@ + spec_render(data.subrange(0, a)) + ", "@ + spec_render(
            data.subrange(a, sum),
        ) + ")"@
    } else if b.last() == 2 {
        "Str"@
    } else if b.last() == 3 {
        "Nil"@
    } else if b.last() == 4 {
        "F64"@
    } else if b.last() == 5 {
        "F32"@
    } else if b.last() == 6 {
        "U8"@
    } else if b.last() == 7 {
        "U16"@
    } else if b.last() == 8 {
        "U32"@
    } else if b.last() == 9 {
        "U64"@
    } else if b.last() == 10 {
        "I8"@
    } else if b.last() == 11 {
        "I16"@
    } else if b.last() == 12 {
        "I32"@
    } else {
        "I64"@
    }
}

/// An owned schema byte string under construction.
pub struct DSchema {
    buf: Bytes,
}

/// The stored size and alignment of one value.
pub struct ScalarLayout {
    pub size: usize,
    pub align: usize,
}

impl DSchema {
    /// The bytes so far.
    pub closed spec fn view(&self) -> Seq<u8> {
        self.buf@
    }

    /// A schema with no bytes yet.
    pub fn empty() -> (r: DSchema)
        ensures
            r@ == Seq::<u8>::empty(),
    {
        DSchema { buf: Bytes::new() }
    }

    /// The one-byte schema of a primitive type.
    pub fn from_primitive<T: Primitive + NumOf>() -> (r: DSchema)
        ensures
            r@ == seq![T::NUM],
    {
        let mut buf = Bytes::new();
        buf.push(T::NUM);
        proof {
            assert(buf@ =~= seq![T::NUM]);
        }
        DSchema { buf }
    }

    /// A read-only view of the bytes.
    pub fn as_ref(&self) -> (r: DSchemaRef<'_>)
        ensures
            r@ == self@,
    {
        let n = self.buf.len();
        let ghost v = self@;
        let s = self.buf.slice(0, n);
        proof {
            assert(s@ =~= v);
        }
        DSchemaRef { bytes: s }
    }

    /// Append another schema's bytes.
    pub fn join(&mut self, schema: DSchemaRef<'_>)
        ensures
            final(self)@ == old(self)@ + schema@,
    {
        self.buf.extend(schema.bytes);
    }

    /// Append one byte.
    pub fn put_u8(&mut self, v: u8)
        ensures
            final(self)@ == old(self)@.push(v),
    {
        self.buf.push(v);
    }

    /// Pad to two bytes, then append a 16-bit value, little endian.
    pub fn put_u16(&mut self, v: u16)
        requires
            old(self)@.len() + 16 <= usize::MAX,
        ensures
            final(self)@ == old(self)@ + Seq::new(
                crate::bytes::pad_len(old(self)@.len() as int, 2),
                |i: int| 0u8,
            ) + u16_bytes(v),
    {
        self.buf.pad(2);
        let ghost padded = self@;
        self.buf.push((v % 256) as u8);
        self.buf.push(((v / 256) % 256) as u8);
        proof {
            assert(self@ =~= padded + u16_bytes(v));
        }
    }

    /// Pad to eight bytes, then append a 64-bit value, little endian.
    pub fn put_u64(&mut self, v: u64)
        requires
            old(self)@.len() + 16 <= usize::MAX,
        ensures
            final(self)@ == old(self)@ + Seq::new(
                crate::bytes::pad_len(old(self)@.len() as int, 8),
                |i: int| 0u8,
            ) + u64_bytes(v),
    {
        self.buf.pad(8);
        let ghost padded = self@;
        self.buf.push((v % 256) as u8);
        self.buf.push(((v / 0x100) % 256) as u8);
        self.buf.push(((v / 0x1_0000) % 256) as u8);
        self.buf.push(((v / 0x100_0000) % 256) as u8);
        self.buf.push(((v / 0x1_0000_0000) % 256) as u8);
        self.buf.push(((v / 0x100_0000_0000) % 256) as u8);
        self.buf.push(((v / 0x1_0000_0000_0000) % 256) as u8);
        self.buf.push(((v / 0x100_0000_0000_0000) % 256) as u8);
        proof {
            assert(self@ =~= padded + u64_bytes(v));
        }
    }
}

/// A read-only slice of schema bytes.
#[derive(Clone, Copy)]
pub struct DSchemaRef<'a> {
    pub bytes: &'a [u8],
}

/// One decoded layer of a schema, with borrowed children.
pub enum DSchemaEnum<'a> {
    I64,
    I32,
    I16,
    I8,
    U64,
    U32,
    U16,
    U8,
    Nil,
    F32,
    F64,
    Str,
    List(DSchemaRef<'a>),
    Enum(u32, DSchemaRef<'a>, DSchemaRef<'a>),
    Pair(ScalarLayout, DSchemaRef<'a>, DSchemaRef<'a>),
}

/// The mathematical shape of a decoded layer.
pub open spec fn dse_view(e: DSchemaEnum<'_>) -> DSEModel {
    match e {
        DSchemaEnum::I64 => DSEModel::I64,
        DSchemaEnum::I32 => DSEModel::I32,
        DSchemaEnum::I16 => DSEModel::I16,
        DSchemaEnum::I8 => DSEModel::I8,
        DSchemaEnum::U64 => DSEModel::U64,
        DSchemaEnum::U32 => DSEModel::U32,
        DSchemaEnum::U16 => DSEModel::U16,
        DSchemaEnum::U8 => DSEModel::U8,
        DSchemaEnum::Nil => DSEModel::Nil,
        DSchemaEnum::F32 => DSEModel::F32,
        DSchemaEnum::F64 => DSEModel::F64,
        DSchemaEnum::Str => DSEModel::Str,
        DSchemaEnum::List(r) => DSEModel::List(r@),
        DSchemaEnum::Enum(n, a, b) => DSEModel::Enum(n as int, a@, b@),
        DSchemaEnum::Pair(l, a, b) => DSEModel::Pair(l.size as int, l.align as int, a@, b@),
    }
}

impl<'a> DSchemaRef<'a> {
    /// The bytes of this view.
    pub open spec fn view(&self) -> Seq<u8> {
        self.bytes@
    }

    /// How many bytes the schema has.
    pub fn len(self) -> (r: usize)
        ensures
            r == self@.len(),
    {
        self.bytes.len()
    }

    /// The tag byte at the end.
    pub fn tag(self) -> (r: u8)
        requires
            self@.len() > 0,
        ensures
            r == self@.last(),
    {
        *vstd::slice::slice_index_get(self.bytes, self.bytes.len() - 1)
    }

    /// The 16-bit little-endian value at the end.
    pub fn u16(self) -> (r: u16)
        requires
            self@.len() >= 2,
        ensures
            r as int == read_u16_end(self@),
    {
        let n = self.bytes.len();
        let b0 = *vstd::slice::slice_index_get(self.bytes, n - 2);
        let b1 = *vstd::slice::slice_index_get(self.bytes, n - 1);
        b0 as u16 + (b1 as u16) * 256
    }

    /// The 32-bit little-endian value at the end.
    pub fn u32(self) -> (r: u32)
        requires
            self@.len() >= 4,
        ensures
            r as int == read_u32_end(self@),
    {
        let n = self.bytes.len();
        let b0 = *vstd::slice::slice_index_get(self.bytes, n - 4);
        let b1 = *vstd::slice::slice_index_get(self.bytes, n - 3);
        let b2 = *vstd::slice::slice_index_get(self.bytes, n - 2);
        let b3 = *vstd::slice::slice_index_get(self.bytes, n - 1);
        b0 as u32 + (b1 as u32) * 0x100 + (b2 as u32) * 0x1_0000 + (b3 as u32) * 0x100_0000
    }

    /// The 64-bit little-endian value at the end.
    pub fn u64(self) -> (r: u64)
        requires
            self@.len() >= 8,
        ensures
            r as int == read_u64_end(self@),
    {
        let n = self.bytes.len();
        let b0 = *vstd::slice::slice_index_get(self.bytes, n - 8);
        let b1 = *vstd::slice::slice_index_get(self.bytes, n - 7);
        let b2 = *vstd::slice::slice_index_get(self.bytes, n - 6);
        let b3 = *vstd::slice::slice_index_get(self.bytes, n - 5);
        let b4 = *vstd::slice::slice_index_get(self.bytes, n - 4);
        let b5 = *vstd::slice::slice_index_get(self.bytes, n - 3);
        let b6 = *vstd::slice::slice_index_get(self.bytes, n - 2);
        let b7 = *vstd::slice::slice_index_get(self.bytes, n - 1);
        b0 as u64 + (b1 as u64) * 0x100 + (b2 as u64) * 0x1_0000 + (b3 as u64) * 0x100_0000 + (
        b4 as u64) * 0x1_0000_0000 + (b5 as u64) * 0x100_0000_0000 + (b6 as u64)
            * 0x1_0000_0000_0000 + (b7 as u64) * 0x100_0000_0000_0000
    }

    /// The bytes with the last `l` removed.
    pub fn cut(self, l: usize) -> (r: DSchemaRef<'a>)
        requires
            l <= self@.len(),
        ensures
            r@ == self@.subrange(0, self@.len() - l),
    {
        DSchemaRef {
            bytes: vstd::slice::slice_subrange(self.bytes, 0, self.bytes.len() - l),
        }
    }

    /// The bytes from `start` up to `end`.
    pub fn slice(self, start: usize, end: usize) -> (r: DSchemaRef<'a>)
        requires
            start <= end <= self@.len(),
        ensures
            r@ == self@.subrange(start as int, end as int),
    {
        DSchemaRef { bytes: vstd::slice::slice_subrange(self.bytes, start, end) }
    }

    /// Decode the outermost layer.
    pub fn decode(self) -> (r: DSchemaEnum<'a>)
        requires
            wf_ds(self@),
            ds_decode(self@) matches DSEModel::Pair(sz, al, _, _) ==> sz <= usize::MAX && al
                <= usize::MAX,
        ensures
            dse_view(r) == ds_decode(self@),
        decreases self@.len(),
    {
        let t = self.tag();
        if t == 0 {
            self.cut(1).decode()
        } else if t == 1 {
            let rest = self.cut(1);
            let a = rest.u16();
            let sum = rest.cut(2).u16();
            let m = rest.cut(4).u64();
            let data = rest.cut(12);
            let child1 = data.slice(a as usize, sum as usize);
            let child0 = data.slice(0, a as usize);
            let layout = ScalarLayout { size: (m / 256) as usize, align: (m % 256) as usize };
            DSchemaEnum::Pair(layout, child1, child0)
        } else if t == 2 {
            DSchemaEnum::Str
        } else if t == 3 {
            DSchemaEnum::Nil
        } else if t == 4 {
            DSchemaEnum::F64
        } else if t == 5 {
            DSchemaEnum::F32
        } else if t == 6 {
            DSchemaEnum::U8
        } else if t == 7 {
            DSchemaEnum::U16
        } else if t == 8 {
            DSchemaEnum::U32
        } else if t == 9 {
            DSchemaEnum::U64
        } else if t == 10 {
            DSchemaEnum::I8
        } else if t == 11 {
            DSchemaEnum::I16
        } else if t == 12 {
            DSchemaEnum::I32
        } else {
            DSchemaEnum::I64
        }
    }

    /// The stored size and alignment of one value of this schema.
    pub fn scalar_layout(self) -> (r: ScalarLayout)
        requires
            wf_ds_core(self@),
            spec_scalar_size(self@) <= usize::MAX,
            spec_scalar_align(self@) <= usize::MAX,
        ensures
            r.size as int == spec_scalar_size(self@),
            r.align as int == spec_scalar_align(self@),
    {
        let t = self.tag();
        if t == 1 {
            let m = self.cut(1).cut(8).u64();
            ScalarLayout { size: (m / 256) as usize, align: (m % 256) as usize }
        } else if t == 2 {
            ScalarLayout { size: 16, align: 8 }
        } else if t == 3 {
            ScalarLayout { size: 0, align: 0 }
        } else if t == 4 || t == 9 || t == 13 {
            ScalarLayout { size: 8, align: 8 }
        } else if t == 5 || t == 8 || t == 12 {
            ScalarLayout { size: 4, align: 4 }
        } else if t == 7 || t == 11 {
            ScalarLayout { size: 2, align: 2 }
        } else {
            ScalarLayout { size: 1, align: 1 }
        }
    }

    /// How many buffer columns one value of this schema needs.
    pub fn num_columns(self) -> (r: usize)
        requires
            wf_ds_core(self@),
            spec_num_columns(self@) <= usize::MAX,
        ensures
            r as int == spec_num_columns(self@),
        decreases self@.len(),
    {
        let t = self.tag();
        if t == 1 {
            let rest = self.cut(1);
            let a = rest.u16();
            let sum = rest.cut(2).u16();
            let data = rest.cut(12);
            let child1 = data.slice(a as usize, sum as usize);
            let child0 = data.slice(0, a as usize);
            proof {
                lemma_num_columns_pos(child1@);
                lemma_num_columns_pos(child0@);
            }
            child1.num_columns() + child0.num_columns()
        } else if t == 2 {
            2
        } else {
            1
        }
    }

    /// The text this schema reads as.
    pub fn render(self) -> (r: String)
        requires
            wf_ds_core(self@),
        ensures
            r@ == spec_render(self@),
        decreases self@.len(),
    {
        let t = self.tag();
        if t == 1 {
            let rest = self.cut(1);
            let a = rest.u16();
            let sum = rest.cut(2).u16();
            let data = rest.cut(12);
            let child1 = data.slice(a as usize, sum as usize);
            let child0 = data.slice(0, a as usize);
            let mut out = String::from_str("Pair(");
            out.append(child0.render().as_str());
            out.append(", ");
            out.append(child1.render().as_str());
            out.append(")");
            out
        } else if t == 2 {
            String::from_str("Str")
        } else if t == 3 {
            String::from_str("Nil")
        } else if t == 4 {
            String::from_str("F64")
        } else if t == 5 {
            String::from_str("F32")
        } else if t == 6 {
            String::from_str("U8")
        } else if t == 7 {
            String::from_str("U16")
        } else if t == 8 {
            String::from_str("U32")
        } else if t == 9 {
            String::from_str("U64")
        } else if t == 10 {
            String::from_str("I8")
        } else if t == 11 {
            String::from_str("I16")
        } else if t == 12 {
            String::from_str("I32")
        } else {
            String::from_str("I64")
        }
    }
}

/// A schema spans at least one column.
pub proof fn lemma_num_columns_pos(b: Seq<u8>)
    requires
        wf_ds_core(b),
    ensures
        spec_num_columns(b) >= 1,
    decreases b.len(),
{
    if b.last() == 1 {
        let rest = b.drop_last();
        let a = read_u16_end(rest);
        let sum = read_u16_end(rest.subrange(0, rest.len() - 2));
        let data = rest.subrange(0, rest.len() - 12);
        lemma_num_columns_pos(data.subrange(a, sum));
        lemma_num_columns_pos(data.subrange(0, a));
    }
}

} // verus!

verus! {

impl Primitive for I64 {
    fn layout() -> (usize, usize) {
        (8, 8)
    }
}

impl Primitive for I32 {
    fn layout() -> (usize, usize) {
        (4, 4)
    }
}

impl Primitive for I16 {
    fn layout() -> (usize, usize) {
        (2, 2)
    }
}

impl Primitive for I8 {
    fn layout() -> (usize, usize) {
        (1, 1)
    }
}

impl Primitive for U64 {
    fn layout() -> (usize, usize) {
        (8, 8)
    }
}

impl Primitive for U32 {
    fn layout() -> (usize, usize) {
        (4, 4)
    }
}

impl Primitive for U16 {
    fn layout() -> (usize, usize) {
        (2, 2)
    }
}

impl Primitive for U8 {
    fn layout() -> (usize, usize) {
        (1, 1)
    }
}

impl Primitive for F64 {
    fn layout() -> (usize, usize) {
        (8, 8)
    }
}

impl Primitive for F32 {
    fn layout() -> (usize, usize) {
        (4, 4)
    }
}

impl Primitive for Nil {
    fn layout() -> (usize, usize) {
        (0, 0)
    }
}

impl Primitive for Str {
    fn layout() -> (usize, usize) {
        (16, 8)
    }
}

/// The one-byte schema of a primitive marker with no children.
fn encode_leaf<T: Primitive + NumOf>(children: &[DSchemaRef<'_>]) -> (r: DSchema)
    requires
        children@.len() == 0,
    ensures
        r@ == seq![T::NUM],
{
    DSchema::from_primitive::<T>()
}

impl I64 {
    /// The schema of this type; it has no children.
    pub fn encode(children: &[DSchemaRef<'_>]) -> (r: DSchema)
        requires
            children@.len() == 0,
        ensures
            r@ == seq![I64::NUM],
    {
        encode_leaf::<I64>(children)
    }
}

impl I32 {
    /// The schema of this type; it has no children.
    pub fn encode(children: &[DSchemaRef<'_>]) -> (r: DSchema)
        requires
            children@.len() == 0,
        ensures
            r@ == seq![I32::NUM],
    {
        encode_leaf::<I32>(children)
    }
}

impl I16 {
    /// The schema of this type; it has no children.
    pub fn encode(children: &[DSchemaRef<'_>]) -> (r: DSchema)
        requires
            children@.len() == 0,
        ensures
            r@ == seq![I16::NUM],
    {
        encode_leaf::<I16>(children)
    }
}

impl I8 {
    /// The schema of this type; it has no children.
    pub fn encode(children: &[DSchemaRef<'_>]) -> (r: DSchema)
        requires
            children@.len() == 0,
        ensures
            r@ == seq![I8::NUM],
    {
        encode_leaf::<I8>(children)
    }
}

impl U64 {
    /// The schema of this type; it has no children.
    pub fn encode(children: &[DSchemaRef<'_>]) -> (r: DSchema)
        requires
            children@.len() == 0,
        ensures
            r@ == seq![U64::NUM],
    {
        encode_leaf::<U64>(children)
    }
}

impl U32 {
    /// The schema of this type; it has no children.
    pub fn encode(children: &[DSchemaRef<'_>]) -> (r: DSchema)
        requires
            children@.len() == 0,
        ensures
            r@ == seq![U32::NUM],
    {
        encode_leaf::<U32>(children)
    }
}

impl U16 {
    /// The schema of this type; it has no children.
    pub fn encode(children: &[DSchemaRef<'_>]) -> (r: DSchema)
        requires
            children@.len() == 0,
        ensures
            r@ == seq![U16::NUM],
    {
        encode_leaf::<U16>(children)
    }
}

impl U8 {
    /// The schema of this type; it has no children.
    pub fn encode(children: &[DSchemaRef<'_>]) -> (r: DSchema)
        requires
            children@.len() == 0,
        ensures
            r@ == seq![U8::NUM],
    {
        encode_leaf::<U8>(children)
    }
}

impl F64 {
    /// The schema of this type; it has no children.
    pub fn encode(children: &[DSchemaRef<'_>]) -> (r: DSchema)
        requires
            children@.len() == 0,
        ensures
            r@ == seq![F64::NUM],
    {
        encode_leaf::<F64>(children)
    }
}

impl F32 {
    /// The schema of this type; it has no children.
    pub fn encode(children: &[DSchemaRef<'_>]) -> (r: DSchema)
        requires
            children@.len() == 0,
        ensures
            r@ == seq![F32::NUM],
    {
        encode_leaf::<F32>(children)
    }
}

impl Nil {
    /// The schema of this type; it has no children.
    pub fn encode(children: &[DSchemaRef<'_>]) -> (r: DSchema)
        requires
            children@.len() == 0,
        ensures
            r@ == seq![Nil::NUM],
    {
        encode_leaf::<Nil>(children)
    }
}

impl Str {
    /// The schema of this type; it has no children.
    pub fn encode(children: &[DSchemaRef<'_>]) -> (r: DSchema)
        requires
            children@.len() == 0,
        ensures
            r@ == seq![Str::NUM],
    {
        encode_leaf::<Str>(children)
    }
}

/// The packed size field of a pair's layout word.
pub open spec fn pair_size_field(s0: u64, s1: u64, a1: u64) -> u64 {
    let shifted = 1u64 << a1;
    let left = (s0 + shifted - 1) as u64;
    let mask = (shifted - 1) as u64;
    let right = ((!mask) + s1) as u64;
    left & right
}

/// A pair's layout word: the packed size times 256, plus the larger of
/// the two alignments.
pub open spec fn pair_word(s0: u64, a0: u64, s1: u64, a1: u64) -> int {
    pair_size_field(s0, s1, a1) * 256 + (if a0 >= a1 {
        a0
    } else {
        a1
    })
}

impl Pair {
    /// The schema of a pair: both children's bytes, the layout word,
    /// and the two offsets that let one layer be decoded.
    pub fn encode(children: &[DSchemaRef<'_>]) -> (r: DSchema)
        requires
            children@.len() == 2,
            wf_ds_core(children@[0]@),
            wf_ds_core(children@[1]@),
            spec_scalar_size(children@[0]@) <= usize::MAX,
            spec_scalar_size(children@[1]@) <= usize::MAX,
            spec_scalar_align(children@[0]@) < 64,
            spec_scalar_align(children@[1]@) < 64,
            spec_scalar_size(children@[0]@) + (1u64 << spec_scalar_align(children@[1]@) as u64)
                <= u64::MAX,
            spec_scalar_size(children@[1]@) <= (1u64 << spec_scalar_align(children@[1]@) as u64)
                - 1,
            (spec_scalar_size(children@[0]@) + (1u64 << spec_scalar_align(
                children@[1]@,
            ) as u64)) * 256 <= u64::MAX,
            children@[0]@.len() + children@[1]@.len() < 0x10000,
            children@[0]@.len() + children@[1]@.len() + 64 <= usize::MAX,
        ensures
            ({
                let c0 = children@[0]@;
                let c1 = children@[1]@;
                let m = pair_word(
                    spec_scalar_size(c0) as u64,
                    spec_scalar_align(c0) as u64,
                    spec_scalar_size(c1) as u64,
                    spec_scalar_align(c1) as u64,
                );
                r@ == c0 + c1 + Seq::new(
                    crate::bytes::pad_len((c0.len() + c1.len()) as int, 8),
                    |i: int| 0u8,
                ) + u64_bytes(m as u64) + u16_bytes((c0.len() + c1.len()) as u16) + u16_bytes(
                    c0.len() as u16,
                ) + seq![1u8]
            }),
    {
        let c0 = *vstd::slice::slice_index_get(children, 0);
        let c1 = *vstd::slice::slice_index_get(children, 1);
        let a = c0.len();
        let b = c1.len();
        let l0 = c0.scalar_layout();
        let l1 = c1.scalar_layout();
        let s0 = l0.size as u64;
        let a0 = l0.align as u64;
        let s1 = l1.size as u64;
        let a1 = l1.align as u64;
        let shifted = 1u64 << a1;
        let left = s0 + shifted - 1;
        let mask = shifted - 1;
        proof {
            assert(!mask == u64::MAX - mask) by (bit_vector);
        }
        let right = !mask + s1;
        let msize = left & right;
        proof {
            assert(msize <= left) by (bit_vector)
                requires
                    msize == left & right,
            ;
        }
        let malign = if a0 >= a1 {
            a0
        } else {
            a1
        };
        let m = msize * 256 + malign;
        let mut schema = DSchema::empty();
        schema.join(c0);
        schema.join(c1);
        schema.put_u64(m);
        schema.put_u16((b as u16) + (a as u16));
        schema.put_u16(a as u16);
        schema.put_u8(1);
        proof {
            assert(schema@ =~= c0@ + c1@ + Seq::new(
                crate::bytes::pad_len((c0@.len() + c1@.len()) as int, 8),
                |i: int| 0u8,
            ) + u64_bytes(m) + u16_bytes((c0@.len() + c1@.len()) as u16) + u16_bytes(
                c0@.len() as u16,
            ) + seq![1u8]);
        }
        schema
    }
}

} // verus!

verus! {

/// Reassembling a 64-bit value from its little-endian bytes gives the
/// value back.
proof fn lemma_u64_bytes_value(v: u64)
    ensures
        (v % 256) + 0x100 * ((v / 0x100) % 256) + 0x1_0000 * ((v / 0x1_0000) % 256) + 0x100_0000 * (
        (v / 0x100_0000) % 256) + 0x1_0000_0000 * ((v / 0x1_0000_0000) % 256) + 0x100_0000_0000 * (
        (v / 0x100_0000_0000) % 256) + 0x1_0000_0000_0000 * ((v / 0x1_0000_0000_0000) % 256)
            + 0x100_0000_0000_0000 * ((v / 0x100_0000_0000_0000) % 256) == v,
{
    assert((v % 256) + 0x100 * ((v / 0x100) % 256) + 0x1_0000 * ((v / 0x1_0000) % 256)
        + 0x100_0000 * ((v / 0x100_0000) % 256) + 0x1_0000_0000 * ((v / 0x1_0000_0000) % 256)
        + 0x100_0000_0000 * ((v / 0x100_0000_0000) % 256) + 0x1_0000_0000_0000 * ((v
        / 0x1_0000_0000_0000) % 256) + 0x100_0000_0000_0000 * ((v / 0x100_0000_0000_0000) % 256)
        == v) by (bit_vector);
}

/// Decoding an encoded pair gives back its layout word and both
/// children: the codec round-trips, layer by layer.
pub proof fn lemma_pair_roundtrip(c0: Seq<u8>, c1: Seq<u8>, m: u64)
    requires
        wf_ds_core(c0),
        wf_ds_core(c1),
        c0.len() + c1.len() < 0x10000,
    ensures
        ({
            let b = c0 + c1 + Seq::new(
                crate::bytes::pad_len((c0.len() + c1.len()) as int, 8),
                |i: int| 0u8,
            ) + u64_bytes(m) + u16_bytes((c0.len() + c1.len()) as u16) + u16_bytes(c0.len() as u16)
                + seq![1u8];
            &&& wf_ds(b)
            &&& wf_ds_core(b)
            &&& ds_decode(b) == DSEModel::Pair(m as int / 256, m as int % 256, c1, c0)
        }),
{
    let pad = Seq::new(crate::bytes::pad_len((c0.len() + c1.len()) as int, 8), |i: int| 0u8);
    let b = c0 + c1 + pad + u64_bytes(m) + u16_bytes((c0.len() + c1.len()) as u16) + u16_bytes(
        c0.len() as u16,
    ) + seq![1u8];
    let a = c0.len() as int;
    let sum = a + c1.len() as int;
    let rest = b.drop_last();
    assert(rest =~= c0 + c1 + pad + u64_bytes(m) + u16_bytes((c0.len() + c1.len()) as u16)
        + u16_bytes(c0.len() as u16));
    assert((c0.len() + c1.len() + pad.len()) % 8 == 0);
    assert(rest.len() >= 16);
    assert(read_u16_end(rest) == a) by {
        assert(rest[rest.len() - 2] == u16_bytes(c0.len() as u16)[0]);
        assert(rest[rest.len() - 1] == u16_bytes(c0.len() as u16)[1]);
        assert((c0.len() as u16) % 256 + 256 * (((c0.len() as u16) / 256) % 256) == c0.len());
    }
    let r2 = rest.subrange(0, rest.len() - 2);
    assert(r2 =~= c0 + c1 + pad + u64_bytes(m) + u16_bytes((c0.len() + c1.len()) as u16));
    assert(read_u16_end(r2) == sum) by {
        assert(r2[r2.len() - 2] == u16_bytes((c0.len() + c1.len()) as u16)[0]);
        assert(r2[r2.len() - 1] == u16_bytes((c0.len() + c1.len()) as u16)[1]);
        assert(((c0.len() + c1.len()) as u16) % 256 + 256 * ((((c0.len() + c1.len()) as u16) / 256)
            % 256) == c0.len() + c1.len());
    }
    let r4 = rest.subrange(0, rest.len() - 4);
    assert(r4 =~= c0 + c1 + pad + u64_bytes(m));
    assert(read_u64_end(r4) == m) by {
        assert forall|q: int| 0 <= q < 8 implies r4[r4.len() - 8 + q] == u64_bytes(m)[q] by {}
        lemma_u64_bytes_value(m);
    }
    let data = rest.subrange(0, rest.len() - 12);
    assert(data =~= c0 + c1 + pad);
    assert(data.subrange(a, sum) =~= c1);
    assert(data.subrange(0, a) =~= c0);
    assert(wf_ds_core(b));
    assert(ds_decode(b) == DSEModel::Pair(m as int / 256, m as int % 256, c1, c0));
}

} // verus!
