//! The catalog's binary schema codec.
//!
//! A schema is a byte string read from the end: the last byte names the
//! type.  Composite types carry their children's bytes first, then a
//! table of 16-bit little-endian offsets into them, then the child
//! count, the tag, and one byte of padding where needed — so a schema is
//! decoded one layer at a time, without walking the children.  A zero
//! tag is padding and is skipped.
use vstd::prelude::*;

use crate::bytes::Bytes;
use crate::bytes::pad_len;
use crate::data_schema::read_u16_end;
use crate::data_schema::u16_bytes;

verus! {

/// The offset entry `j` of an offset table.
pub open spec fn off_at(cuts: Seq<u8>, j: int) -> int {
    cuts[2 * j] + 256 * cuts[2 * j + 1]
}

/// The child count of a composite schema, `s1` being the bytes before
/// the tag.
pub open spec fn cat_count(s1: Seq<u8>) -> int {
    read_u16_end(s1)
}

/// The offset table of a named composite.
pub open spec fn named_cuts(s1: Seq<u8>) -> Seq<u8> {
    let n = cat_count(s1);
    let s2 = s1.subrange(0, s1.len() - 2);
    s2.subrange(s2.len() - (4 * n + 2), s2.len() as int)
}

/// The data region of a named composite.
pub open spec fn named_data(s1: Seq<u8>) -> Seq<u8> {
    let n = cat_count(s1);
    let s2 = s1.subrange(0, s1.len() - 2);
    s2.subrange(0, s2.len() - (4 * n + 2))
}

/// A well-formed named composite body: count, offsets in range and in
/// order, names held to ASCII.
pub open spec fn wf_named_body(s1: Seq<u8>) -> bool {
    &&& s1.len() >= 2
    &&& {
        let n = cat_count(s1);
        let s2 = s1.subrange(0, s1.len() - 2);
        &&& s2.len() >= 4 * n + 2
        &&& {
            let cuts = named_cuts(s1);
            let data = named_data(s1);
            &&& forall|j: int| 0 <= j <= 2 * n ==> #[trigger] off_at(cuts, j) <= data.len()
            &&& forall|j: int| 0 <= j < 2 * n ==> #[trigger] off_at(cuts, j) <= off_at(
                cuts,
                j + 1,
            )
            &&& forall|i: int, k: int|
                0 <= i < n && #[trigger] off_at(cuts, 2 * i) <= k < off_at(cuts, 2 * i + 1)
                    ==> #[trigger] data[k] < 128
        }
    }
}

/// The offset table of an anonymous composite.
pub open spec fn tuple_cuts(s1: Seq<u8>) -> Seq<u8> {
    let n = cat_count(s1);
    let s2 = s1.subrange(0, s1.len() - 2);
    s2.subrange(s2.len() - (2 * n + 2), s2.len() as int)
}

/// The data region of an anonymous composite.
pub open spec fn tuple_data(s1: Seq<u8>) -> Seq<u8> {
    let n = cat_count(s1);
    let s2 = s1.subrange(0, s1.len() - 2);
    s2.subrange(0, s2.len() - (2 * n + 2))
}

/// A well-formed anonymous composite body.
pub open spec fn wf_tuple_body(s1: Seq<u8>) -> bool {
    &&& s1.len() >= 2
    &&& {
        let n = cat_count(s1);
        let s2 = s1.subrange(0, s1.len() - 2);
        &&& s2.len() >= 2 * n + 2
        &&& {
            let cuts = tuple_cuts(s1);
            let data = tuple_data(s1);
            &&& forall|j: int| 0 <= j <= n ==> #[trigger] off_at(cuts, j) <= data.len()
            &&& forall|j: int| 0 <= j < n ==> #[trigger] off_at(cuts, j) <= off_at(cuts, j + 1)
        }
    }
}

/// A schema whose outermost layer can be decoded.
pub open spec fn wf_cat(b: Seq<u8>) -> bool
    decreases b.len(),
{
    &&& b.len() > 0
    &&& {
        let t = b.last();
        if t == 0 {
            wf_cat(b.drop_last())
        } else if t == 4 || t == 2 {
            wf_named_body(b.drop_last())
        } else if t == 3 {
            wf_tuple_body(b.drop_last())
        } else {
            1 <= t <= 16
        }
    }
}

/// The names of a named composite.
pub open spec fn named_names(s1: Seq<u8>) -> Seq<Seq<char>> {
    let cuts = named_cuts(s1);
    let data = named_data(s1);
    Seq::new(
        cat_count(s1) as nat,
        |i: int|
            Seq::new(
                (off_at(cuts, 2 * i + 1) - off_at(cuts, 2 * i)) as nat,
                |k: int| data[off_at(cuts, 2 * i) + k] as char,
            ),
    )
}

/// The children of a named composite, as bytes.
pub open spec fn named_items(s1: Seq<u8>) -> Seq<Seq<u8>> {
    let cuts = named_cuts(s1);
    let data = named_data(s1);
    Seq::new(
        cat_count(s1) as nat,
        |i: int| data.subrange(off_at(cuts, 2 * i + 1), off_at(cuts, 2 * i + 2)),
    )
}

/// The children of an anonymous composite, as bytes.
pub open spec fn tuple_items(s1: Seq<u8>) -> Seq<Seq<u8>> {
    let cuts = tuple_cuts(s1);
    let data = tuple_data(s1);
    Seq::new(
        cat_count(s1) as nat,
        |i: int| data.subrange(off_at(cuts, i), off_at(cuts, i + 1)),
    )
}

/// One decoded layer of a catalog schema.
pub enum CatModel {
    I64,
    I32,
    I16,
    I8,
    U64,
    U32,
    U16,
    U8,
    F32,
    F64,
    Nil,
    Str,
    Struct(Seq<Seq<char>>, Seq<Seq<u8>>),
    Tuple(Seq<Seq<u8>>),
    Enum(Seq<Seq<char>>, Seq<Seq<u8>>),
    Array(Seq<u8>),
    Default,
}

/// What decoding one layer of a catalog schema yields.
pub open spec fn cat_decode(b: Seq<u8>) -> CatModel
    decreases b.len(),
    when wf_cat(b)
{
    let t = b.last();
    if t == 0 {
        cat_decode(b.drop_last())
    } else if t == 1 {
        CatModel::Array(b.drop_last())
    } else if t == 2 {
        CatModel::Enum(named_names(b.drop_last()), named_items(b.drop_last()))
    } else if t == 3 {
        CatModel::Tuple(tuple_items(b.drop_last()))
    } else if t == 4 {
        CatModel::Struct(named_names(b.drop_last()), named_items(b.drop_last()))
    } else if t == 5 {
        CatModel::Str
    } else if t == 6 {
        CatModel::Nil
    } else if t == 7 {
        CatModel::F64
    } else if t == 8 {
        CatModel::F32
    } else if t == 9 {
        CatModel::U8
    } else if t == 10 {
        CatModel::U16
    } else if t == 11 {
        CatModel::U32
    } else if t == 12 {
        CatModel::U64
    } else if t == 13 {
        CatModel::I8
    } else if t == 14 {
        CatModel::I16
    } else if t == 15 {
        CatModel::I32
    } else {
        CatModel::I64
    }
}

/// A list of `(name, schema)` fields, one layer deep.
pub struct NamedSlice {
    names: Vec<String>,
    items: Vec<Vec<u8>>,
}

impl NamedSlice {
    /// The field names.
    pub closed spec fn names_view(&self) -> Seq<Seq<char>> {
        self.names.deep_view()
    }

    /// The field schemas, as bytes.
    pub closed spec fn items_view(&self) -> Seq<Seq<u8>> {
        self.items.deep_view()
    }

    /// A list with no fields yet.
    pub fn empty() -> (r: NamedSlice)
        ensures
            r.names_view() == Seq::<Seq<char>>::empty(),
            r.items_view() == Seq::<Seq<u8>>::empty(),
    {
        let r = NamedSlice { names: Vec::new(), items: Vec::new() };
        proof {
            assert(r.names_view() =~= Seq::<Seq<char>>::empty());
            assert(r.items_view() =~= Seq::<Seq<u8>>::empty());
        }
        r
    }

    /// Add one field.
    pub fn push(&mut self, name: &str, schema: SchemaRef<'_>)
        ensures
            final(self).names_view() == old(self).names_view().push(name@),
            final(self).items_view() == old(self).items_view().push(schema@),
    {
        self.names.push(name.to_owned());
        let mut item: Vec<u8> = Vec::new();
        let n = schema.bytes.len();
        let mut i: usize = 0;
        while i < n
            invariant
                i <= n,
                n == schema.bytes@.len(),
                item@ == schema.bytes@.subrange(0, i as int),
            decreases n - i,
        {
            item.push(*vstd::slice::slice_index_get(schema.bytes, i));
            proof {
                assert(item@ =~= schema.bytes@.subrange(0, (i + 1) as int));
            }
            i = i + 1;
        }
        proof {
            assert(item@ =~= schema.bytes@);
        }
        self.items.push(item);
        proof {
            assert(self.names_view() =~~= old(self).names_view().push(name@));
            assert(self.items_view() =~~= old(self).items_view().push(schema@));
        }
    }

    /// How many fields there are.
    pub fn len(&self) -> (r: usize)
        ensures
            r == self.names_view().len(),
    {
        self.names.len()
    }

    /// The field at `i`.
    pub fn get(&self, i: usize) -> (r: (&String, SchemaRef<'_>))
        requires
            (i as int) < self.names_view().len(),
            (i as int) < self.items_view().len(),
        ensures
            r.0@ == self.names_view()[i as int],
            r.1@ == self.items_view()[i as int],
    {
        (&self.names[i], SchemaRef { bytes: self.items[i].as_slice() })
    }
}

/// A list of schemas, one layer deep.
pub struct AnonySlice {
    items: Vec<Vec<u8>>,
}

impl AnonySlice {
    /// The element schemas, as bytes.
    pub closed spec fn items_view(&self) -> Seq<Seq<u8>> {
        self.items.deep_view()
    }

    /// A list with no elements yet.
    pub fn empty() -> (r: AnonySlice)
        ensures
            r.items_view() == Seq::<Seq<u8>>::empty(),
    {
        let r = AnonySlice { items: Vec::new() };
        proof {
            assert(r.items_view() =~= Seq::<Seq<u8>>::empty());
        }
        r
    }

    /// Add one element.
    pub fn push(&mut self, schema: SchemaRef<'_>)
        ensures
            final(self).items_view() == old(self).items_view().push(schema@),
    {
        let mut item: Vec<u8> = Vec::new();
        let n = schema.bytes.len();
        let mut i: usize = 0;
        while i < n
            invariant
                i <= n,
                n == schema.bytes@.len(),
                item@ == schema.bytes@.subrange(0, i as int),
            decreases n - i,
        {
            item.push(*vstd::slice::slice_index_get(schema.bytes, i));
            proof {
                assert(item@ =~= schema.bytes@.subrange(0, (i + 1) as int));
            }
            i = i + 1;
        }
        proof {
            assert(item@ =~= schema.bytes@);
        }
        self.items.push(item);
        proof {
            assert(self.items_view() =~~= old(self).items_view().push(schema@));
        }
    }

    /// How many elements there are.
    pub fn len(&self) -> (r: usize)
        ensures
            r == self.items_view().len(),
    {
        self.items.len()
    }

    /// The element at `i`.
    pub fn get(&self, i: usize) -> (r: SchemaRef<'_>)
        requires
            (i as int) < self.items_view().len(),
        ensures
            r@ == self.items_view()[i as int],
    {
        SchemaRef { bytes: self.items[i].as_slice() }
    }
}

/// One decoded layer of a schema.
pub enum SchemaEnum<'a> {
    I64,
    I32,
    I16,
    I8,
    U64,
    U32,
    U16,
    U8,
    F32,
    F64,
    Nil,
    Str,
    Struct(NamedSlice),
    Tuple(AnonySlice),
    Enum(NamedSlice),
    Array(SchemaRef<'a>),
    Default,
}

/// The mathematical shape of a decoded layer.
pub open spec fn schema_enum_view(e: &SchemaEnum<'_>) -> CatModel {
    match e {
        SchemaEnum::I64 => CatModel::I64,
        SchemaEnum::I32 => CatModel::I32,
        SchemaEnum::I16 => CatModel::I16,
        SchemaEnum::I8 => CatModel::I8,
        SchemaEnum::U64 => CatModel::U64,
        SchemaEnum::U32 => CatModel::U32,
        SchemaEnum::U16 => CatModel::U16,
        SchemaEnum::U8 => CatModel::U8,
        SchemaEnum::F32 => CatModel::F32,
        SchemaEnum::F64 => CatModel::F64,
        SchemaEnum::Nil => CatModel::Nil,
        SchemaEnum::Str => CatModel::Str,
        SchemaEnum::Struct(ns) => CatModel::Struct(ns.names_view(), ns.items_view()),
        SchemaEnum::Tuple(ts) => CatModel::Tuple(ts.items_view()),
        SchemaEnum::Enum(ns) => CatModel::Enum(ns.names_view(), ns.items_view()),
        SchemaEnum::Array(r) => CatModel::Array(r@),
        SchemaEnum::Default => CatModel::Default,
    }
}

/// An owned, encoded schema.
pub struct Schema {
    buf: Bytes,
}

/// A read-only view of encoded schema bytes.
#[derive(Clone, Copy)]
pub struct SchemaRef<'a> {
    pub bytes: &'a [u8],
}

impl<'a> SchemaRef<'a> {
    /// The bytes of this view.
    pub open spec fn view(&self) -> Seq<u8> {
        self.bytes@
    }

    /// The raw encoded bytes.
    pub fn as_bytes(&self) -> (r: &[u8])
        ensures
            r@ == self@,
    {
        self.bytes
    }

    /// How many bytes the schema has.
    pub fn len(self) -> (r: usize)
        ensures
            r == self@.len(),
    {
        self.bytes.len()
    }

    fn tag(self) -> (r: u8)
        requires
            self@.len() > 0,
        ensures
            r == self@.last(),
    {
        *vstd::slice::slice_index_get(self.bytes, self.bytes.len() - 1)
    }

    fn u16(self) -> (r: u16)
        requires
            self@.len() >= 2,
        ensures
            r as int == read_u16_end(self@),
    {
        let n = self.bytes.len();
        let b0 = *vstd::slice::slice_index_get(self.bytes, n - 2);
        let b1 = *vstd::slice::slice_index_get(self.bytes, n - 1);
        b0 as u16 + (b1 as u16) * 256
    }

    fn cut(self, l: usize) -> (r: SchemaRef<'a>)
        requires
            l <= self@.len(),
        ensures
            r@ == self@.subrange(0, self@.len() - l),
    {
        SchemaRef { bytes: vstd::slice::slice_subrange(self.bytes, 0, self.bytes.len() - l) }
    }

    fn slice(self, start: usize, end: usize) -> (r: SchemaRef<'a>)
        requires
            start <= end <= self@.len(),
        ensures
            r@ == self@.subrange(start as int, end as int),
    {
        SchemaRef { bytes: vstd::slice::slice_subrange(self.bytes, start, end) }
    }

    /// The offset entry `j` of this offset table.
    fn off(self, j: usize) -> (r: u16)
        requires
            2 * j + 1 < self@.len(),
        ensures
            r as int == off_at(self@, j as int),
    {
        let nn = self.bytes.len();
        proof {
            assert(2 * (j as int) + 1 < nn as int);
        }
        let b0 = *vstd::slice::slice_index_get(self.bytes, 2 * j);
        let b1 = *vstd::slice::slice_index_get(self.bytes, 2 * j + 1);
        b0 as u16 + (b1 as u16) * 256
    }

    /// Decode the outermost layer.
    pub fn decode(self) -> (r: SchemaEnum<'a>)
        requires
            wf_cat(self@),
        ensures
            schema_enum_view(&r) == cat_decode(self@),
        decreases self@.len(),
    {
        let t = self.tag();
        if t == 0 {
            self.cut(1).decode()
        } else if t == 1 {
            SchemaEnum::Array(self.cut(1))
        } else if t == 2 {
            SchemaEnum::Enum(self.named_fields())
        } else if t == 3 {
            SchemaEnum::Tuple(self.tuple_fields())
        } else if t == 4 {
            SchemaEnum::Struct(self.named_fields())
        } else if t == 5 {
            SchemaEnum::Str
        } else if t == 6 {
            SchemaEnum::Nil
        } else if t == 7 {
            SchemaEnum::F64
        } else if t == 8 {
            SchemaEnum::F32
        } else if t == 9 {
            SchemaEnum::U8
        } else if t == 10 {
            SchemaEnum::U16
        } else if t == 11 {
            SchemaEnum::U32
        } else if t == 12 {
            SchemaEnum::U64
        } else if t == 13 {
            SchemaEnum::I8
        } else if t == 14 {
            SchemaEnum::I16
        } else if t == 15 {
            SchemaEnum::I32
        } else {
            SchemaEnum::I64
        }
    }

    /// Read the fields of a named composite whose tag is this schema's
    /// last byte.
    fn named_fields(self) -> (r: NamedSlice)
        requires
            self@.len() > 0,
            wf_named_body(self@.drop_last()),
        ensures
            r.names_view() == named_names(self@.drop_last()),
            r.items_view() == named_items(self@.drop_last()),
    {
        let s1 = self.cut(1);
        let ghost s1v = s1@;
        let n = s1.u16() as usize;
        let s2 = s1.cut(2);
        let cuts = s2.slice(s2.len() - (4 * n + 2), s2.len());
        let data = s2.cut(4 * n + 2);
        proof {
            assert(cuts@ == named_cuts(s1v));
            assert(data@ == named_data(s1v));
        }
        let mut out = NamedSlice::empty();
        let mut i: usize = 0;
        while i < n
            invariant
                i <= n,
                n == cat_count(s1v),
                wf_named_body(s1v),
                cuts@ == named_cuts(s1v),
                data@ == named_data(s1v),
                out.names_view().len() == i as int,
                out.items_view().len() == i as int,
                forall|j: int| 0 <= j < i ==> out.names_view()[j] == named_names(s1v)[j],
                forall|j: int| 0 <= j < i ==> out.items_view()[j] == named_items(s1v)[j],
            decreases n - i,
        {
            let x = cuts.off(2 * i) as usize;
            let y = cuts.off(2 * i + 1) as usize;
            let z = cuts.off(2 * i + 2) as usize;
            let mut name = String::new();
            let mut k: usize = x;
            while k < y
                invariant
                    x <= k <= y,
                    (i as int) < cat_count(s1v),
                    wf_named_body(s1v),
                    cuts@ == named_cuts(s1v),
                    data@ == named_data(s1v),
                    x as int == off_at(cuts@, 2 * i as int),
                    y as int == off_at(cuts@, 2 * i as int + 1),
                    y <= data@.len(),
                    name@ == Seq::new((k - x) as nat, |q: int| data@[x + q] as char),
                decreases y - k,
            {
                let b = *vstd::slice::slice_index_get(data.bytes, k);
                crate::strings::push_char(&mut name, b as char);
                proof {
                    assert(name@ =~= Seq::new((k + 1 - x) as nat, |q: int| data@[x + q] as char));
                }
                k = k + 1;
            }
            let item = data.slice(y, z);
            out.push(name.as_str(), item);
            proof {
                assert(name@ == named_names(s1v)[i as int]);
                assert(item@ == named_items(s1v)[i as int]);
            }
            i = i + 1;
        }
        proof {
            assert(out.names_view() =~~= named_names(s1v));
            assert(out.items_view() =~~= named_items(s1v));
        }
        out
    }

    /// Read the elements of an anonymous composite whose tag is this
    /// schema's last byte.
    fn tuple_fields(self) -> (r: AnonySlice)
        requires
            self@.len() > 0,
            wf_tuple_body(self@.drop_last()),
        ensures
            r.items_view() == tuple_items(self@.drop_last()),
    {
        let s1 = self.cut(1);
        let ghost s1v = s1@;
        let n = s1.u16() as usize;
        let s2 = s1.cut(2);
        let cuts = s2.slice(s2.len() - (2 * n + 2), s2.len());
        let data = s2.cut(2 * n + 2);
        proof {
            assert(cuts@ == tuple_cuts(s1v));
            assert(data@ == tuple_data(s1v));
        }
        let mut out = AnonySlice::empty();
        let mut i: usize = 0;
        while i < n
            invariant
                i <= n,
                n == cat_count(s1v),
                wf_tuple_body(s1v),
                cuts@ == tuple_cuts(s1v),
                data@ == tuple_data(s1v),
                out.items_view().len() == i as int,
                forall|j: int| 0 <= j < i ==> out.items_view()[j] == tuple_items(s1v)[j],
            decreases n - i,
        {
            let x = cuts.off(i) as usize;
            let y = cuts.off(i + 1) as usize;
            let item = data.slice(x, y);
            out.push(item);
            proof {
                assert(item@ == tuple_items(s1v)[i as int]);
            }
            i = i + 1;
        }
        proof {
            assert(out.items_view() =~~= tuple_items(s1v));
        }
        out
    }
}

} // verus!

verus! {

/// The bytes of an ASCII name.
pub open spec fn ascii_bytes(s: Seq<char>) -> Seq<u8> {
    Seq::new(s.len(), |i: int| s[i] as u8)
}

/// The first `k` fields of a named composite, laid out: each name's
/// bytes, then its schema's bytes.
pub open spec fn named_payload(names: Seq<Seq<char>>, items: Seq<Seq<u8>>, k: int) -> Seq<u8>
    decreases k,
{
    if k <= 0 {
        Seq::empty()
    } else {
        named_payload(names, items, k - 1) + ascii_bytes(names[k - 1]) + items[k - 1]
    }
}

/// The offset table of the first `k` fields: where each name ends and
/// where its schema ends.
pub open spec fn named_offbytes(names: Seq<Seq<char>>, items: Seq<Seq<u8>>, k: int) -> Seq<u8>
    decreases k,
{
    if k <= 0 {
        Seq::empty()
    } else {
        named_offbytes(names, items, k - 1) + u16_bytes(
            (named_payload(names, items, k - 1).len() + names[k - 1].len()) as u16,
        ) + u16_bytes(named_payload(names, items, k).len() as u16)
    }
}

/// The first `k` elements of an anonymous composite, laid out.
pub open spec fn tuple_payload(items: Seq<Seq<u8>>, k: int) -> Seq<u8>
    decreases k,
{
    if k <= 0 {
        Seq::empty()
    } else {
        tuple_payload(items, k - 1) + items[k - 1]
    }
}

/// The offset table of the first `k` elements: where each one ends.
pub open spec fn tuple_offbytes(items: Seq<Seq<u8>>, k: int) -> Seq<u8>
    decreases k,
{
    if k <= 0 {
        Seq::empty()
    } else {
        tuple_offbytes(items, k - 1) + u16_bytes(tuple_payload(items, k).len() as u16)
    }
}

/// The encoding of one decoded layer.
pub open spec fn cat_encode(m: CatModel) -> Seq<u8> {
    match m {
        CatModel::I64 => seq![16u8],
        CatModel::I32 => seq![15u8],
        CatModel::I16 => seq![14u8],
        CatModel::I8 => seq![13u8],
        CatModel::U64 => seq![12u8],
        CatModel::U32 => seq![11u8],
        CatModel::U16 => seq![10u8],
        CatModel::U8 => seq![9u8],
        CatModel::F32 => seq![8u8],
        CatModel::F64 => seq![7u8],
        CatModel::Nil => seq![6u8],
        CatModel::Str => seq![5u8],
        CatModel::Struct(names, items) => composite_encode(
            named_payload(names, items, names.len() as int),
            named_offbytes(names, items, names.len() as int),
            names.len() as u16,
            4u8,
        ),
        CatModel::Enum(names, items) => composite_encode(
            named_payload(names, items, names.len() as int),
            named_offbytes(names, items, names.len() as int),
            names.len() as u16,
            2u8,
        ),
        CatModel::Tuple(items) => composite_encode(
            tuple_payload(items, items.len() as int),
            tuple_offbytes(items, items.len() as int),
            items.len() as u16,
            3u8,
        ),
        CatModel::Array(_) => seq![1u8],
        CatModel::Default => seq![0u8],
    }
}

/// A composite layer: the payload, padding to two bytes, the zero
/// offset, the offset table, the count, the tag, and one padding byte.
pub open spec fn composite_encode(pl: Seq<u8>, offs: Seq<u8>, n: u16, tag: u8) -> Seq<u8> {
    pl + Seq::new(pad_len(pl.len() as int, 2), |i: int| 0u8) + seq![0u8, 0u8] + offs + u16_bytes(n)
        + seq![tag, 0u8]
}

/// Whether a decoded layer can be encoded: names ASCII, every offset
/// representable in sixteen bits, the layer not the padding marker.
pub open spec fn cat_encodable(m: CatModel) -> bool {
    match m {
        CatModel::Struct(names, items) => named_encodable(names, items),
        CatModel::Enum(names, items) => named_encodable(names, items),
        CatModel::Tuple(items) => {
            &&& items.len() < 0x10000
            &&& tuple_payload(items, items.len() as int).len() < 0x10000
        },
        CatModel::Default => false,
        _ => true,
    }
}

/// See [`cat_encodable`].
pub open spec fn named_encodable(names: Seq<Seq<char>>, items: Seq<Seq<u8>>) -> bool {
    &&& names.len() == items.len()
    &&& names.len() < 0x10000
    &&& named_payload(names, items, names.len() as int).len() < 0x10000
    &&& forall|i: int, k: int|
        0 <= i < names.len() && 0 <= k < names[i].len() ==> '\0' <= (#[trigger] names[i][k])
            && names[i][k] < 128
}

/// Payloads only grow as fields are added.
pub proof fn lemma_named_payload_mono(names: Seq<Seq<char>>, items: Seq<Seq<u8>>, i: int, k: int)
    requires
        0 <= i <= k,
    ensures
        named_payload(names, items, i).len() <= named_payload(names, items, k).len(),
    decreases k - i,
{
    if i < k {
        lemma_named_payload_mono(names, items, i, k - 1);
    }
}

/// Payloads only grow as elements are added.
pub proof fn lemma_tuple_payload_mono(items: Seq<Seq<u8>>, i: int, k: int)
    requires
        0 <= i <= k,
    ensures
        tuple_payload(items, i).len() <= tuple_payload(items, k).len(),
    decreases k - i,
{
    if i < k {
        lemma_tuple_payload_mono(items, i, k - 1);
    }
}

impl Schema {
    /// The encoded bytes.
    pub closed spec fn view(&self) -> Seq<u8> {
        self.buf@
    }

    /// A read-only view of the encoded bytes.
    pub fn as_ref(&self) -> (r: SchemaRef<'_>)
        ensures
            r@ == self@,
    {
        let n = self.buf.len();
        let ghost v = self@;
        let s = self.buf.slice(0, n);
        proof {
            assert(s@ =~= v);
        }
        SchemaRef { bytes: s }
    }

    /// Encode one layer: the layer's own bytes are appended after its
    /// children's, so the whole schema is one byte string.
    pub fn encode(schema: &SchemaEnum<'_>) -> (r: Schema)
        requires
            cat_encodable(schema_enum_view(schema)),
        ensures
            r@ == cat_encode(schema_enum_view(schema)),
    {
        let mut buf = Bytes::new();
        match schema {
            SchemaEnum::I64 => {
                buf.push(16);
                proof {
                    assert(buf@ =~= seq![16u8]);
                }
            },
            SchemaEnum::I32 => {
                buf.push(15);
                proof {
                    assert(buf@ =~= seq![15u8]);
                }
            },
            SchemaEnum::I16 => {
                buf.push(14);
                proof {
                    assert(buf@ =~= seq![14u8]);
                }
            },
            SchemaEnum::I8 => {
                buf.push(13);
                proof {
                    assert(buf@ =~= seq![13u8]);
                }
            },
            SchemaEnum::U64 => {
                buf.push(12);
                proof {
                    assert(buf@ =~= seq![12u8]);
                }
            },
            SchemaEnum::U32 => {
                buf.push(11);
                proof {
                    assert(buf@ =~= seq![11u8]);
                }
            },
            SchemaEnum::U16 => {
                buf.push(10);
                proof {
                    assert(buf@ =~= seq![10u8]);
                }
            },
            SchemaEnum::U8 => {
                buf.push(9);
                proof {
                    assert(buf@ =~= seq![9u8]);
                }
            },
            SchemaEnum::F32 => {
                buf.push(8);
                proof {
                    assert(buf@ =~= seq![8u8]);
                }
            },
            SchemaEnum::F64 => {
                buf.push(7);
                proof {
                    assert(buf@ =~= seq![7u8]);
                }
            },
            SchemaEnum::Nil => {
                buf.push(6);
                proof {
                    assert(buf@ =~= seq![6u8]);
                }
            },
            SchemaEnum::Str => {
                buf.push(5);
                proof {
                    assert(buf@ =~= seq![5u8]);
                }
            },
            SchemaEnum::Struct(ns) => {
                encode_named(&mut buf, ns, 4);
            },
            SchemaEnum::Enum(ns) => {
                encode_named(&mut buf, ns, 2);
            },
            SchemaEnum::Tuple(ts) => {
                encode_tuple(&mut buf, ts, 3);
            },
            SchemaEnum::Array(_) => {
                buf.push(1);
                proof {
                    assert(buf@ =~= seq![1u8]);
                }
            },
            SchemaEnum::Default => {
                buf.push(0);
                proof {
                    assert(buf@ =~= seq![0u8]);
                }
            },
        }
        Schema { buf }
    }
}

/// Append the encoding of a named composite.
fn encode_named(buf: &mut Bytes, ns: &NamedSlice, tag: u8)
    requires
        old(buf)@ == Seq::<u8>::empty(),
        !old(buf).is_num(),
        named_encodable(ns.names_view(), ns.items_view()),
    ensures
        final(buf)@ == composite_encode(
            named_payload(ns.names_view(), ns.items_view(), ns.names_view().len() as int),
            named_offbytes(ns.names_view(), ns.items_view(), ns.names_view().len() as int),
            ns.names_view().len() as u16,
            tag,
        ),
{
    let ghost names = ns.names_view();
    let ghost items = ns.items_view();
    let n = ns.len();
    let mut i: usize = 0;
    while i < n
        invariant
            i <= n,
            n == names.len(),
            named_encodable(names, items),
            names == ns.names_view(),
            items == ns.items_view(),
            buf.is_num() == old(buf).is_num(),
            buf@ == named_payload(names, items, i as int),
        decreases n - i,
    {
        let (name, item) = ns.get(i);
        let ghost before = buf@;
        let nl = name.as_str().unicode_len();
        let mut k: usize = 0;
        while k < nl
            invariant
                k <= nl,
                nl == name@.len(),
                name@ == names[i as int],
                (i as int) < names.len(),
                named_encodable(names, items),
                buf.is_num() == old(buf).is_num(),
                buf@ == before + ascii_bytes(name@).subrange(0, k as int),
            decreases nl - k,
        {
            let c = name.as_str().get_char(k);
            buf.push(c as u8);
            proof {
                assert(buf@ =~= before + ascii_bytes(name@).subrange(0, (k + 1) as int));
            }
            k = k + 1;
        }
        proof {
            assert(ascii_bytes(name@).subrange(0, nl as int) =~= ascii_bytes(name@));
        }
        buf.extend(item.bytes);
        proof {
            assert(buf@ =~= named_payload(names, items, (i + 1) as int));
        }
        i = i + 1;
    }
    buf.pad(2);
    buf.push(0);
    buf.push(0);
    let ghost prefix = buf@;
    let mut start: usize = 0;
    let mut i2: usize = 0;
    while i2 < n
        invariant
            i2 <= n,
            n == names.len(),
            named_encodable(names, items),
            names == ns.names_view(),
            items == ns.items_view(),
            buf.is_num() == old(buf).is_num(),
            start as int == named_payload(names, items, i2 as int).len(),
            buf@ == prefix + named_offbytes(names, items, i2 as int),
        decreases n - i2,
    {
        let (name, item) = ns.get(i2);
        proof {
            lemma_named_payload_mono(names, items, i2 as int + 1, n as int);
        }
        let x = start + name.as_str().unicode_len();
        let y = x + item.bytes.len();
        buf.push((x % 256) as u8);
        buf.push(((x / 256) % 256) as u8);
        buf.push((y % 256) as u8);
        buf.push(((y / 256) % 256) as u8);
        proof {
            assert(buf@ =~= prefix + named_offbytes(names, items, (i2 + 1) as int));
        }
        start = y;
        i2 = i2 + 1;
    }
    let cnt = n as u16;
    buf.push((cnt % 256) as u8);
    buf.push(((cnt / 256) % 256) as u8);
    buf.push(tag);
    buf.push(0);
    proof {
        assert(final(buf)@ =~= composite_encode(
            named_payload(names, items, n as int),
            named_offbytes(names, items, n as int),
            n as u16,
            tag,
        ));
    }
}

/// Append the encoding of an anonymous composite.
fn encode_tuple(buf: &mut Bytes, ts: &AnonySlice, tag: u8)
    requires
        old(buf)@ == Seq::<u8>::empty(),
        !old(buf).is_num(),
        ts.items_view().len() < 0x10000,
        tuple_payload(ts.items_view(), ts.items_view().len() as int).len() < 0x10000,
    ensures
        final(buf)@ == composite_encode(
            tuple_payload(ts.items_view(), ts.items_view().len() as int),
            tuple_offbytes(ts.items_view(), ts.items_view().len() as int),
            ts.items_view().len() as u16,
            tag,
        ),
{
    let ghost items = ts.items_view();
    let n = ts.len();
    let mut i: usize = 0;
    while i < n
        invariant
            i <= n,
            n == items.len(),
            tuple_payload(items, n as int).len() < 0x10000,
            items == ts.items_view(),
            buf.is_num() == old(buf).is_num(),
            buf@ == tuple_payload(items, i as int),
        decreases n - i,
    {
        let item = ts.get(i);
        buf.extend(item.bytes);
        proof {
            assert(buf@ =~= tuple_payload(items, (i + 1) as int));
        }
        i = i + 1;
    }
    buf.pad(2);
    buf.push(0);
    buf.push(0);
    let ghost prefix = buf@;
    let mut start: usize = 0;
    let mut i2: usize = 0;
    while i2 < n
        invariant
            i2 <= n,
            n == items.len(),
            tuple_payload(items, n as int).len() < 0x10000,
            items == ts.items_view(),
            buf.is_num() == old(buf).is_num(),
            start as int == tuple_payload(items, i2 as int).len(),
            buf@ == prefix + tuple_offbytes(items, i2 as int),
        decreases n - i2,
    {
        let item = ts.get(i2);
        proof {
            lemma_tuple_payload_mono(items, i2 as int + 1, n as int);
        }
        let y = start + item.bytes.len();
        buf.push((y % 256) as u8);
        buf.push(((y / 256) % 256) as u8);
        proof {
            assert(buf@ =~= prefix + tuple_offbytes(items, (i2 + 1) as int));
        }
        start = y;
        i2 = i2 + 1;
    }
    let cnt = n as u16;
    buf.push((cnt % 256) as u8);
    buf.push(((cnt / 256) % 256) as u8);
    buf.push(tag);
    buf.push(0);
    proof {
        assert(final(buf)@ =~= composite_encode(
            tuple_payload(items, n as int),
            tuple_offbytes(items, n as int),
            n as u16,
            tag,
        ));
    }
}

} // verus!

verus! {

/// A schema all of whose layers can be decoded, with array elements and
/// composite children included.
pub open spec fn wf_cat_deep(b: Seq<u8>) -> bool
    decreases b.len(),
{
    &&& b.len() > 0
    &&& {
        let t = b.last();
        if t == 0 {
            wf_cat_deep(b.drop_last())
        } else if t == 4 || t == 2 {
            &&& wf_named_body(b.drop_last())
            &&& forall|i: int|
                0 <= i < cat_count(b.drop_last()) ==> wf_cat_deep(
                    #[trigger] named_items(b.drop_last())[i],
                )
        } else if t == 3 {
            &&& wf_tuple_body(b.drop_last())
            &&& forall|i: int|
                0 <= i < cat_count(b.drop_last()) ==> wf_cat_deep(
                    #[trigger] tuple_items(b.drop_last())[i],
                )
        } else if t == 1 {
            b.len() > 1 && wf_cat_deep(b.drop_last())
        } else {
            1 <= t <= 16
        }
    }
}

/// The text a schema reads as.
pub open spec fn cat_render(b: Seq<u8>) -> Seq<char>
    decreases b.len(), 0int, 0int,
    when wf_cat_deep(b)
{
    let t = b.last();
    if t == 0 {
        cat_render(b.drop_last())
    } else if t == 1 {
        "Array("@ + cat_render(b.drop_last()) + ")"@
    } else if t == 2 {
        "Enum({"@ + named_render_entries(b.drop_last(), cat_count(b.drop_last())) + "})"@
    } else if t == 3 {
        "Tuple(["@ + tuple_render_entries(b.drop_last(), cat_count(b.drop_last())) + "])"@
    } else if t == 4 {
        "Struct({"@ + named_render_entries(b.drop_last(), cat_count(b.drop_last())) + "})"@
    } else if t == 5 {
        "Str"@
    } else if t == 6 {
        "Nil"@
    } else if t == 7 {
        "F64"@
    } else if t == 8 {
        "F32"@
    } else if t == 9 {
        "U8"@
    } else if t == 10 {
        "U16"@
    } else if t == 11 {
        "U32"@
    } else if t == 12 {
        "U64"@
    } else if t == 13 {
        "I8"@
    } else if t == 14 {
        "I16"@
    } else if t == 15 {
        "I32"@
    } else {
        "I64"@
    }
}

/// All fields of a named composite are deeply well formed, and `k` of
/// them are to be rendered.
pub open spec fn named_render_ctx(s1: Seq<u8>, k: int) -> bool {
    &&& wf_named_body(s1)
    &&& k <= cat_count(s1)
    &&& forall|i: int| 0 <= i < cat_count(s1) ==> wf_cat_deep(#[trigger] named_items(s1)[i])
}

/// The first `k` fields of a named composite, rendered as map entries.
pub open spec fn named_render_entries(s1: Seq<u8>, k: int) -> Seq<char>
    decreases s1.len(), 1int, k,
    when named_render_ctx(s1, k)
{
    if k <= 0 {
        Seq::empty()
    } else {
        named_render_entries(s1, k - 1) + (if k > 1 {
            ", "@
        } else {
            Seq::<char>::empty()
        }) + "\""@ + named_names(s1)[k - 1] + "\": "@ + cat_render(named_items(s1)[k - 1])
    }
}

/// All elements of an anonymous composite are deeply well formed, and
/// `k` of them are to be rendered.
pub open spec fn tuple_render_ctx(s1: Seq<u8>, k: int) -> bool {
    &&& wf_tuple_body(s1)
    &&& k <= cat_count(s1)
    &&& forall|i: int| 0 <= i < cat_count(s1) ==> wf_cat_deep(#[trigger] tuple_items(s1)[i])
}

/// The first `k` elements of an anonymous composite, rendered as list
/// entries.
pub open spec fn tuple_render_entries(s1: Seq<u8>, k: int) -> Seq<char>
    decreases s1.len(), 1int, k,
    when tuple_render_ctx(s1, k)
{
    if k <= 0 {
        Seq::empty()
    } else {
        tuple_render_entries(s1, k - 1) + (if k > 1 {
            ", "@
        } else {
            Seq::<char>::empty()
        }) + cat_render(tuple_items(s1)[k - 1])
    }
}

impl<'a> SchemaRef<'a> {
    /// The text this schema reads as: type names, named fields in
    /// braces, tuple elements in brackets.
    pub fn render(self) -> (r: String)
        requires
            wf_cat_deep(self@),
        ensures
            r@ == cat_render(self@),
        decreases self@.len(), 1int,
    {
        let t = self.tag();
        if t == 0 {
            self.cut(1).render()
        } else if t == 1 {
            let mut out = String::from_str("Array(");
            out.append(self.cut(1).render().as_str());
            out.append(")");
            out
        } else if t == 2 || t == 4 {
            let ns = self.named_fields();
            let mut out = if t == 4 {
                String::from_str("Struct({")
            } else {
                String::from_str("Enum({")
            };
            out.append(render_named_entries(&ns, Ghost(self@.drop_last())).as_str());
            out.append("})");
            out
        } else if t == 3 {
            let ts = self.tuple_fields();
            let mut out = String::from_str("Tuple([");
            out.append(render_tuple_entries(&ts, Ghost(self@.drop_last())).as_str());
            out.append("])");
            out
        } else if t == 5 {
            String::from_str("Str")
        } else if t == 6 {
            String::from_str("Nil")
        } else if t == 7 {
            String::from_str("F64")
        } else if t == 8 {
            String::from_str("F32")
        } else if t == 9 {
            String::from_str("U8")
        } else if t == 10 {
            String::from_str("U16")
        } else if t == 11 {
            String::from_str("U32")
        } else if t == 12 {
            String::from_str("U64")
        } else if t == 13 {
            String::from_str("I8")
        } else if t == 14 {
            String::from_str("I16")
        } else if t == 15 {
            String::from_str("I32")
        } else {
            String::from_str("I64")
        }
    }
}

} // verus!

verus! {

/// The map entries of a named composite, rendered.
fn render_named_entries(ns: &NamedSlice, Ghost(s1v): Ghost<Seq<u8>>) -> (r: String)
    requires
        wf_named_body(s1v),
        ns.names_view() == named_names(s1v),
        ns.items_view() == named_items(s1v),
        forall|q: int| 0 <= q < cat_count(s1v) ==> wf_cat_deep(#[trigger] named_items(s1v)[q]),
    ensures
        r@ == named_render_entries(s1v, cat_count(s1v)),
    decreases s1v.len(), 0int,
{
    let n = ns.len();
    let mut out = String::new();
    let mut i: usize = 0;
    while i < n
        invariant
            i <= n,
            n == cat_count(s1v),
            wf_named_body(s1v),
            ns.names_view() == named_names(s1v),
            ns.items_view() == named_items(s1v),
            forall|q: int|
                0 <= q < cat_count(s1v) ==> wf_cat_deep(#[trigger] named_items(s1v)[q]),
            out@ == named_render_entries(s1v, i as int),
        decreases n - i,
    {
        if i > 0 {
            out.append(", ");
        }
        let (name, item) = ns.get(i);
        out.append("\"");
        out.append(name.as_str());
        out.append("\": ");
        out.append(item.render().as_str());
        proof {
            assert(out@ =~= named_render_entries(s1v, (i + 1) as int));
        }
        i = i + 1;
    }
    out
}

/// The list entries of an anonymous composite, rendered.
fn render_tuple_entries(ts: &AnonySlice, Ghost(s1v): Ghost<Seq<u8>>) -> (r: String)
    requires
        wf_tuple_body(s1v),
        ts.items_view() == tuple_items(s1v),
        forall|q: int| 0 <= q < cat_count(s1v) ==> wf_cat_deep(#[trigger] tuple_items(s1v)[q]),
    ensures
        r@ == tuple_render_entries(s1v, cat_count(s1v)),
    decreases s1v.len(), 0int,
{
    let n = ts.len();
    let mut out = String::new();
    let mut i: usize = 0;
    while i < n
        invariant
            i <= n,
            n == cat_count(s1v),
            wf_tuple_body(s1v),
            ts.items_view() == tuple_items(s1v),
            forall|q: int|
                0 <= q < cat_count(s1v) ==> wf_cat_deep(#[trigger] tuple_items(s1v)[q]),
            out@ == tuple_render_entries(s1v, i as int),
        decreases n - i,
    {
        if i > 0 {
            out.append(", ");
        }
        let item = ts.get(i);
        out.append(item.render().as_str());
        proof {
            assert(out@ =~= tuple_render_entries(s1v, (i + 1) as int));
        }
        i = i + 1;
    }
    out
}

} // verus!
