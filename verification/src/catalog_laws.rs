//! Round-trip laws of the catalog codec: decoding what was encoded
//! gives the encoded fields back.
use vstd::prelude::*;

use crate::bytes::pad_len;
use crate::catalog_schema::CatModel;
use crate::catalog_schema::cat_count;
use crate::catalog_schema::cat_decode;
use crate::catalog_schema::composite_encode;
use crate::catalog_schema::ascii_bytes;
use crate::catalog_schema::lemma_named_payload_mono;
use crate::catalog_schema::named_cuts;
use crate::catalog_schema::named_data;
use crate::catalog_schema::named_encodable;
use crate::catalog_schema::named_items;
use crate::catalog_schema::named_names;
use crate::catalog_schema::named_offbytes;
use crate::catalog_schema::named_payload;
use crate::catalog_schema::off_at;
use crate::catalog_schema::wf_cat;
use crate::catalog_schema::wf_named_body;
use crate::data_schema::u16_bytes;

verus! {

proof fn lemma_offbytes_len(names: Seq<Seq<char>>, items: Seq<Seq<u8>>, k: int)
    requires
        k >= 0,
    ensures
        named_offbytes(names, items, k).len() == 4 * k,
    decreases k,
{
    if k > 0 {
        lemma_offbytes_len(names, items, k - 1);
    }
}

/// An earlier payload is a prefix of a later one.
proof fn lemma_payload_prefix(names: Seq<Seq<char>>, items: Seq<Seq<u8>>, k: int, n: int)
    requires
        0 <= k <= n,
    ensures
        named_payload(names, items, k).len() <= named_payload(names, items, n).len(),
        named_payload(names, items, n).subrange(0, named_payload(names, items, k).len() as int)
            == named_payload(names, items, k),
    decreases n - k,
{
    if k < n {
        lemma_payload_prefix(names, items, k, n - 1);
        assert(named_payload(names, items, n).subrange(
            0,
            named_payload(names, items, k).len() as int,
        ) =~= named_payload(names, items, n - 1).subrange(
            0,
            named_payload(names, items, k).len() as int,
        ));
    } else {
        assert(named_payload(names, items, n).subrange(
            0,
            named_payload(names, items, k).len() as int,
        ) =~= named_payload(names, items, k));
    }
}

/// The offset table of the first `k` fields reads back as the payload
/// bounds it was built from.
proof fn lemma_off_table(names: Seq<Seq<char>>, items: Seq<Seq<u8>>, k: int, bound: int)
    requires
        0 <= k,
        named_payload(names, items, k).len() <= bound,
        bound < 0x10000,
    ensures
        ({
            let table = seq![0u8, 0u8] + named_offbytes(names, items, k);
            &&& off_at(table, 0) == 0
            &&& forall|i: int|
                0 <= i < k ==> #[trigger] off_at(table, 2 * i + 1) == named_payload(
                    names,
                    items,
                    i,
                ).len() + names[i].len()
            &&& forall|i: int|
                0 <= i < k ==> #[trigger] off_at(table, 2 * i + 2) == named_payload(
                    names,
                    items,
                    i + 1,
                ).len()
        }),
    decreases k,
{
    lemma_offbytes_len(names, items, k);
    let table = seq![0u8, 0u8] + named_offbytes(names, items, k);
    if k == 0 {
        assert(off_at(table, 0) == 0);
    } else {
        lemma_named_payload_mono(names, items, k - 1, k);
        lemma_off_table(names, items, k - 1, bound);
        lemma_offbytes_len(names, items, k - 1);
        let prev = seq![0u8, 0u8] + named_offbytes(names, items, k - 1);
        let x = (named_payload(names, items, k - 1).len() + names[k - 1].len()) as u16;
        let y = named_payload(names, items, k).len() as u16;
        assert(table =~= prev + u16_bytes(x) + u16_bytes(y));
        assert forall|j: int| 0 <= j < prev.len() implies table[j] == prev[j] by {}
        assert(off_at(table, 2 * (k - 1) + 1) == x) by {
            assert(table[4 * (k - 1) + 2] == u16_bytes(x)[0]);
            assert(table[4 * (k - 1) + 3] == u16_bytes(x)[1]);
            assert(x % 256 + 256 * ((x / 256) % 256) == x);
        }
        assert(off_at(table, 2 * (k - 1) + 2) == y) by {
            assert(table[4 * (k - 1) + 4] == u16_bytes(y)[0]);
            assert(table[4 * (k - 1) + 5] == u16_bytes(y)[1]);
            assert(y % 256 + 256 * ((y / 256) % 256) == y);
        }
        assert(named_payload(names, items, k - 1).len() + names[k - 1].len() <= named_payload(
            names,
            items,
            k,
        ).len());
        assert forall|i: int| 0 <= i < k implies #[trigger] off_at(table, 2 * i + 1)
            == named_payload(names, items, i).len() + names[i].len() by {
            if i < k - 1 {
                assert(off_at(prev, 2 * i + 1) == named_payload(names, items, i).len()
                    + names[i].len());
            }
        }
        assert forall|i: int| 0 <= i < k implies #[trigger] off_at(table, 2 * i + 2)
            == named_payload(names, items, i + 1).len() by {
            if i < k - 1 {
                assert(off_at(prev, 2 * i + 2) == named_payload(names, items, i + 1).len());
            }
        }
    }
}

/// The body of an encoded named composite, before the tag: payload,
/// padding, offset table, count.
pub open spec fn named_layer(names: Seq<Seq<char>>, items: Seq<Seq<u8>>) -> Seq<u8> {
    let n = names.len() as int;
    let pl = named_payload(names, items, n);
    pl + Seq::new(pad_len(pl.len() as int, 2), |i: int| 0u8) + (seq![0u8, 0u8] + named_offbytes(
        names,
        items,
        n,
    )) + u16_bytes(names.len() as u16)
}

/// The regions of an encoded layer read back as what they were built
/// from.
proof fn lemma_named_layer_regions(names: Seq<Seq<char>>, items: Seq<Seq<u8>>)
    requires
        named_encodable(names, items),
    ensures
        ({
            let n = names.len() as int;
            let s1 = named_layer(names, items);
            &&& s1.len() >= 2
            &&& cat_count(s1) == n
            &&& s1.subrange(0, s1.len() - 2).len() >= 4 * n + 2
            &&& named_cuts(s1) == seq![0u8, 0u8] + named_offbytes(names, items, n)
            &&& named_data(s1) == named_payload(names, items, n) + Seq::new(
                pad_len(named_payload(names, items, n).len() as int, 2),
                |i: int| 0u8,
            )
        }),
{
    let n = names.len() as int;
    let pl = named_payload(names, items, n);
    let padz = Seq::new(pad_len(pl.len() as int, 2), |i: int| 0u8);
    let table = seq![0u8, 0u8] + named_offbytes(names, items, n);
    let s1 = named_layer(names, items);
    lemma_offbytes_len(names, items, n);
    assert(cat_count(s1) == n) by {
        assert(s1[s1.len() - 2] == u16_bytes(n as u16)[0]);
        assert(s1[s1.len() - 1] == u16_bytes(n as u16)[1]);
        assert((n as u16) % 256 + 256 * (((n as u16) / 256) % 256) == n);
    }
    assert(s1.subrange(0, s1.len() - 2) =~= pl + padz + table);
    assert(named_cuts(s1) =~= table);
    assert(named_data(s1) =~= pl + padz);
}

/// Every payload byte of a name region is the ASCII byte of that name.
proof fn lemma_named_payload_bytes(names: Seq<Seq<char>>, items: Seq<Seq<u8>>)
    requires
        named_encodable(names, items),
    ensures
        forall|i: int, q: int|
            0 <= i < names.len() && 0 <= q < names[i].len() ==> #[trigger] named_payload(
                names,
                items,
                names.len() as int,
            )[named_payload(names, items, i).len() + q] == (names[i][q] as u8),
{
    let n = names.len() as int;
    let pl = named_payload(names, items, n);
    assert forall|i: int, q: int|
        0 <= i < n && 0 <= q < names[i].len() implies #[trigger] pl[named_payload(
        names,
        items,
        i,
    ).len() + q] == (names[i][q] as u8) by {
        lemma_payload_prefix(names, items, i + 1, n);
        let pli = named_payload(names, items, i);
        let pli1 = named_payload(names, items, i + 1);
        assert(pli1[pli.len() + q] == ascii_bytes(names[i])[q]);
        assert(pl.subrange(0, pli1.len() as int) == pli1);
        assert(pl[pli.len() + q] == pli1[pli.len() + q]);
    }
}

} // verus!

verus! {

/// The offset entries of an encoded layer, in terms of payload lengths.
proof fn lemma_named_entry_values(names: Seq<Seq<char>>, items: Seq<Seq<u8>>)
    requires
        named_encodable(names, items),
    ensures
        ({
            let n = names.len() as int;
            let table = seq![0u8, 0u8] + named_offbytes(names, items, n);
            &&& forall|i: int|
                0 <= i < n ==> #[trigger] off_at(table, 2 * i) == named_payload(
                    names,
                    items,
                    i,
                ).len()
            &&& forall|i: int|
                0 <= i < n ==> #[trigger] off_at(table, 2 * i + 1) == named_payload(
                    names,
                    items,
                    i,
                ).len() + names[i].len()
            &&& forall|i: int|
                0 <= i < n ==> #[trigger] off_at(table, 2 * i + 2) == named_payload(
                    names,
                    items,
                    i + 1,
                ).len()
        }),
{
    let n = names.len() as int;
    let table = seq![0u8, 0u8] + named_offbytes(names, items, n);
    lemma_named_payload_mono(names, items, n, n);
    lemma_off_table(names, items, n, 0xffff);
    assert forall|i: int| 0 <= i < n implies #[trigger] off_at(table, 2 * i) == named_payload(
        names,
        items,
        i,
    ).len() by {
        if i == 0 {
            assert(named_payload(names, items, 0).len() == 0);
            assert(off_at(table, 0) == 0);
        } else {
            assert(off_at(table, 2 * (i - 1) + 2) == named_payload(names, items, i).len());
        }
    }
}

/// Every offset of an encoded layer falls inside its data region.
proof fn lemma_named_offsets_in_range(names: Seq<Seq<char>>, items: Seq<Seq<u8>>)
    requires
        named_encodable(names, items),
    ensures
        ({
            let n = names.len() as int;
            let table = seq![0u8, 0u8] + named_offbytes(names, items, n);
            forall|j: int|
                0 <= j <= 2 * n ==> #[trigger] off_at(table, j) <= named_data(
                    named_layer(names, items),
                ).len()
        }),
{
    let n = names.len() as int;
    let table = seq![0u8, 0u8] + named_offbytes(names, items, n);
    lemma_named_layer_regions(names, items);
    let data = named_data(named_layer(names, items));
    lemma_named_entry_values(names, items);
    assert forall|j: int| 0 <= j <= 2 * n implies #[trigger] off_at(table, j) <= data.len() by {
        if j > 0 {
            let i = (j - 1) / 2;
            lemma_named_payload_mono(names, items, i + 1, n);
            if j % 2 == 1 {
                assert(off_at(table, 2 * i + 1) == named_payload(names, items, i).len()
                    + names[i].len());
                assert(named_payload(names, items, i).len() + names[i].len() <= named_payload(
                    names,
                    items,
                    i + 1,
                ).len());
            } else {
                assert(off_at(table, 2 * i + 2) == named_payload(names, items, i + 1).len());
            }
        }
    }
}

/// The offsets of an encoded layer come in order.
proof fn lemma_named_offsets_ordered(names: Seq<Seq<char>>, items: Seq<Seq<u8>>)
    requires
        named_encodable(names, items),
    ensures
        ({
            let n = names.len() as int;
            let table = seq![0u8, 0u8] + named_offbytes(names, items, n);
            forall|j: int|
                0 <= j < 2 * n ==> #[trigger] off_at(table, j) <= off_at(table, j + 1)
        }),
{
    let n = names.len() as int;
    let table = seq![0u8, 0u8] + named_offbytes(names, items, n);
    lemma_named_entry_values(names, items);
    assert forall|j: int| 0 <= j < 2 * n implies #[trigger] off_at(table, j) <= off_at(
        table,
        j + 1,
    ) by {
        let i = j / 2;
        if j % 2 == 0 {
            assert(off_at(table, 2 * i) == named_payload(names, items, i).len());
            assert(off_at(table, 2 * i + 1) == named_payload(names, items, i).len()
                + names[i].len());
        } else {
            assert(off_at(table, 2 * i + 1) == named_payload(names, items, i).len()
                + names[i].len());
            assert(off_at(table, 2 * i + 2) == named_payload(names, items, i + 1).len());
            assert(named_payload(names, items, i).len() + names[i].len() <= named_payload(
                names,
                items,
                i + 1,
            ).len());
        }
    }
}

/// One byte of a name region of an encoded layer is ASCII.
proof fn lemma_named_ascii_one(names: Seq<Seq<char>>, items: Seq<Seq<u8>>, i: int, k: int)
    requires
        named_encodable(names, items),
        0 <= i < names.len(),
        named_payload(names, items, i).len() <= k < named_payload(names, items, i).len()
            + names[i].len(),
    ensures
        named_data(named_layer(names, items))[k] < 128,
{
    let n = names.len() as int;
    let pl = named_payload(names, items, n);
    lemma_named_layer_regions(names, items);
    let data = named_data(named_layer(names, items));
    lemma_named_payload_bytes(names, items);
    lemma_named_payload_mono(names, items, i + 1, n);
    let x = named_payload(names, items, i).len() as int;
    assert(x + names[i].len() <= pl.len());
    let c = names[i][k - x];
    assert(c < 128);
    let b = c as u8;
    assert(b < 128);
    assert(pl[x + (k - x)] == b);
    assert(data[k] == pl[k]);
}

/// Every byte of a name region of an encoded layer is ASCII.
proof fn lemma_named_regions_ascii(names: Seq<Seq<char>>, items: Seq<Seq<u8>>)
    requires
        named_encodable(names, items),
    ensures
        ({
            let n = names.len() as int;
            let table = seq![0u8, 0u8] + named_offbytes(names, items, n);
            let data = named_data(named_layer(names, items));
            forall|i: int, k: int|
                0 <= i < n && #[trigger] off_at(table, 2 * i) <= k < off_at(table, 2 * i + 1)
                    ==> (#[trigger] data[k]) < 128
        }),
{
    let n = names.len() as int;
    let table = seq![0u8, 0u8] + named_offbytes(names, items, n);
    let data = named_data(named_layer(names, items));
    lemma_named_entry_values(names, items);
    assert forall|i: int, k: int|
        0 <= i < n && #[trigger] off_at(table, 2 * i) <= k < off_at(table, 2 * i + 1) implies (
    #[trigger] data[k]) < 128 by {
        assert(off_at(table, 2 * i) == named_payload(names, items, i).len());
        assert(off_at(table, 2 * i + 1) == named_payload(names, items, i).len() + names[i].len());
        lemma_named_ascii_one(names, items, i, k);
    }
}

/// The layer of an encoded named composite is well formed.
proof fn lemma_named_layer_wf(names: Seq<Seq<char>>, items: Seq<Seq<u8>>)
    requires
        named_encodable(names, items),
    ensures
        wf_named_body(named_layer(names, items)),
{
    lemma_named_layer_regions(names, items);
    lemma_named_offsets_in_range(names, items);
    lemma_named_offsets_ordered(names, items);
    lemma_named_regions_ascii(names, items);
}

} // verus!

verus! {

/// The extracted names of an encoded layer are the originals.
proof fn lemma_named_layer_names(names: Seq<Seq<char>>, items: Seq<Seq<u8>>)
    requires
        named_encodable(names, items),
    ensures
        named_names(named_layer(names, items)) == names,
{
    let n = names.len() as int;
    let pl = named_payload(names, items, n);
    let s1 = named_layer(names, items);
    let table = seq![0u8, 0u8] + named_offbytes(names, items, n);
    lemma_named_layer_regions(names, items);
    let data = named_data(s1);
    lemma_named_entry_values(names, items);
    lemma_named_payload_bytes(names, items);
    assert(named_names(s1) =~~= names) by {
        assert forall|i: int| 0 <= i < n implies named_names(s1)[i] =~= names[i] by {
            let x = named_payload(names, items, i).len() as int;
            lemma_named_payload_mono(names, items, i + 1, n);
            assert(off_at(table, 2 * i) == x);
            assert(off_at(table, 2 * i + 1) == x + names[i].len());
            assert(x + names[i].len() <= pl.len());
            assert forall|q: int| 0 <= q < names[i].len() implies named_names(s1)[i][q]
                == names[i][q] by {
                let c = names[i][q];
                assert('\0' <= c && c < 128);
                assert(pl[x + q] == (c as u8));
                assert(data[x + q] == pl[x + q]);
                assert(((c as u8) as char) == c);
            }
        }
    }
}

/// The extracted children of an encoded layer are the originals.
proof fn lemma_named_layer_items(names: Seq<Seq<char>>, items: Seq<Seq<u8>>)
    requires
        named_encodable(names, items),
    ensures
        named_items(named_layer(names, items)) == items,
{
    let n = names.len() as int;
    let pl = named_payload(names, items, n);
    let s1 = named_layer(names, items);
    let table = seq![0u8, 0u8] + named_offbytes(names, items, n);
    lemma_named_layer_regions(names, items);
    let data = named_data(s1);
    lemma_named_entry_values(names, items);
    assert(named_items(s1) =~~= items) by {
        assert forall|i: int| 0 <= i < n implies named_items(s1)[i] =~= items[i] by {
            let x = named_payload(names, items, i).len() as int;
            let y = x + names[i].len() as int;
            let z = named_payload(names, items, i + 1).len() as int;
            assert(off_at(table, 2 * i + 1) == y);
            assert(off_at(table, 2 * i + 2) == z);
            lemma_payload_prefix(names, items, i + 1, n);
            let pli1 = named_payload(names, items, i + 1);
            assert(pl.subrange(0, pli1.len() as int) == pli1);
            assert forall|q: int| 0 <= q < items[i].len() implies data[y + q] == items[i][q] by {
                assert(pli1[y + q] == items[i][q]);
                assert(pl[y + q] == pli1[y + q]);
            }
        }
    }
}

/// Decoding an encoded named composite gives back its names and its
/// children: the codec round-trips, layer by layer.
#[verifier::rlimit(100)]
pub proof fn lemma_named_roundtrip(names: Seq<Seq<char>>, items: Seq<Seq<u8>>, tag: u8)
    requires
        named_encodable(names, items),
        tag == 4 || tag == 2,
    ensures
        ({
            let n = names.len() as int;
            let b = composite_encode(
                named_payload(names, items, n),
                named_offbytes(names, items, n),
                n as u16,
                tag,
            );
            &&& wf_cat(b)
            &&& tag == 4 ==> cat_decode(b) == CatModel::Struct(names, items)
            &&& tag == 2 ==> cat_decode(b) == CatModel::Enum(names, items)
        }),
{
    let n = names.len() as int;
    let pl = named_payload(names, items, n);
    let offs = named_offbytes(names, items, n);
    let b = composite_encode(pl, offs, n as u16, tag);
    let b1 = b.drop_last();
    assert(b1.drop_last() =~= named_layer(names, items));
    lemma_named_layer_wf(names, items);
    lemma_named_layer_names(names, items);
    lemma_named_layer_items(names, items);
    assert(b.last() == 0);
    assert(b1.last() == tag);
    assert(wf_named_body(b1.drop_last()));
    assert(wf_cat(b1));
    assert(wf_cat(b));
    assert(cat_decode(b) == cat_decode(b1));
}

} // verus!

verus! {

use crate::catalog_schema::tuple_cuts;
use crate::catalog_schema::tuple_data;
use crate::catalog_schema::tuple_items;
use crate::catalog_schema::tuple_offbytes;
use crate::catalog_schema::tuple_payload;
use crate::catalog_schema::wf_tuple_body;
use crate::catalog_schema::lemma_tuple_payload_mono;

proof fn lemma_tuple_offbytes_len(items: Seq<Seq<u8>>, k: int)
    requires
        k >= 0,
    ensures
        tuple_offbytes(items, k).len() == 2 * k,
    decreases k,
{
    if k > 0 {
        lemma_tuple_offbytes_len(items, k - 1);
    }
}

/// An earlier payload is a prefix of a later one.
proof fn lemma_tuple_payload_prefix(items: Seq<Seq<u8>>, k: int, n: int)
    requires
        0 <= k <= n,
    ensures
        tuple_payload(items, k).len() <= tuple_payload(items, n).len(),
        tuple_payload(items, n).subrange(0, tuple_payload(items, k).len() as int) == tuple_payload(
            items,
            k,
        ),
    decreases n - k,
{
    if k < n {
        lemma_tuple_payload_prefix(items, k, n - 1);
        assert(tuple_payload(items, n).subrange(0, tuple_payload(items, k).len() as int)
            =~= tuple_payload(items, n - 1).subrange(0, tuple_payload(items, k).len() as int));
    } else {
        assert(tuple_payload(items, n).subrange(0, tuple_payload(items, k).len() as int)
            =~= tuple_payload(items, k));
    }
}

/// The offset table of the first `k` elements reads back as the payload
/// bounds it was built from.
proof fn lemma_tuple_off_table(items: Seq<Seq<u8>>, k: int, bound: int)
    requires
        0 <= k,
        tuple_payload(items, k).len() <= bound,
        bound < 0x10000,
    ensures
        ({
            let table = seq![0u8, 0u8] + tuple_offbytes(items, k);
            &&& off_at(table, 0) == 0
            &&& forall|i: int|
                0 <= i < k ==> #[trigger] off_at(table, i + 1) == tuple_payload(
                    items,
                    i + 1,
                ).len()
        }),
    decreases k,
{
    lemma_tuple_offbytes_len(items, k);
    let table = seq![0u8, 0u8] + tuple_offbytes(items, k);
    if k == 0 {
        assert(off_at(table, 0) == 0);
    } else {
        lemma_tuple_payload_mono(items, k - 1, k);
        lemma_tuple_off_table(items, k - 1, bound);
        lemma_tuple_offbytes_len(items, k - 1);
        let prev = seq![0u8, 0u8] + tuple_offbytes(items, k - 1);
        let y = tuple_payload(items, k).len() as u16;
        assert(table =~= prev + u16_bytes(y));
        assert forall|j: int| 0 <= j < prev.len() implies table[j] == prev[j] by {}
        assert(off_at(table, k) == y) by {
            assert(table[2 * k] == u16_bytes(y)[0]);
            assert(table[2 * k + 1] == u16_bytes(y)[1]);
            assert(y % 256 + 256 * ((y / 256) % 256) == y);
        }
        assert forall|i: int| 0 <= i < k implies #[trigger] off_at(table, i + 1) == tuple_payload(
            items,
            i + 1,
        ).len() by {
            if i < k - 1 {
                assert(off_at(prev, i + 1) == tuple_payload(items, i + 1).len());
            }
        }
    }
}

/// The body of an encoded anonymous composite, before the tag.
pub open spec fn tuple_layer(items: Seq<Seq<u8>>) -> Seq<u8> {
    let n = items.len() as int;
    let pl = tuple_payload(items, n);
    pl + Seq::new(pad_len(pl.len() as int, 2), |i: int| 0u8) + (seq![0u8, 0u8] + tuple_offbytes(
        items,
        n,
    )) + u16_bytes(items.len() as u16)
}

/// The regions of an encoded layer read back as what they were built
/// from; the layer is well formed.
proof fn lemma_tuple_layer_wf(items: Seq<Seq<u8>>)
    requires
        items.len() < 0x10000,
        tuple_payload(items, items.len() as int).len() < 0x10000,
    ensures
        ({
            let n = items.len() as int;
            let s1 = tuple_layer(items);
            &&& cat_count(s1) == n
            &&& tuple_cuts(s1) == seq![0u8, 0u8] + tuple_offbytes(items, n)
            &&& tuple_data(s1) == tuple_payload(items, n) + Seq::new(
                pad_len(tuple_payload(items, n).len() as int, 2),
                |i: int| 0u8,
            )
            &&& wf_tuple_body(s1)
        }),
{
    let n = items.len() as int;
    let pl = tuple_payload(items, n);
    let padz = Seq::new(pad_len(pl.len() as int, 2), |i: int| 0u8);
    let table = seq![0u8, 0u8] + tuple_offbytes(items, n);
    let s1 = tuple_layer(items);
    lemma_tuple_offbytes_len(items, n);
    assert(cat_count(s1) == n) by {
        assert(s1[s1.len() - 2] == u16_bytes(n as u16)[0]);
        assert(s1[s1.len() - 1] == u16_bytes(n as u16)[1]);
        assert((n as u16) % 256 + 256 * (((n as u16) / 256) % 256) == n);
    }
    assert(s1.subrange(0, s1.len() - 2) =~= pl + padz + table);
    assert(tuple_cuts(s1) =~= table);
    assert(tuple_data(s1) =~= pl + padz);
    lemma_tuple_off_table(items, n, 0xffff);
    assert forall|j: int| 0 <= j <= n implies #[trigger] off_at(table, j) <= tuple_data(
        s1,
    ).len() by {
        if j > 0 {
            assert(off_at(table, (j - 1) + 1) == tuple_payload(items, j).len());
            lemma_tuple_payload_mono(items, j, n);
        }
    }
    assert forall|j: int| 0 <= j < n implies #[trigger] off_at(table, j) <= off_at(
        table,
        j + 1,
    ) by {
        if j > 0 {
            assert(off_at(table, (j - 1) + 1) == tuple_payload(items, j).len());
        }
        assert(off_at(table, j + 1) == tuple_payload(items, j + 1).len());
        lemma_tuple_payload_mono(items, j, j + 1);
    }
}

/// One extracted element of an encoded layer is the original.
proof fn lemma_tuple_item_one(items: Seq<Seq<u8>>, i: int)
    requires
        items.len() < 0x10000,
        tuple_payload(items, items.len() as int).len() < 0x10000,
        0 <= i < items.len(),
    ensures
        ({
            let data = tuple_data(tuple_layer(items));
            data.subrange(
                tuple_payload(items, i).len() as int,
                tuple_payload(items, i + 1).len() as int,
            ) == items[i]
        }),
{
    let n = items.len() as int;
    let pl = tuple_payload(items, n);
    lemma_tuple_layer_wf(items);
    let data = tuple_data(tuple_layer(items));
    let x = tuple_payload(items, i).len() as int;
    let z = tuple_payload(items, i + 1).len() as int;
    lemma_tuple_payload_prefix(items, i + 1, n);
    let pli1 = tuple_payload(items, i + 1);
    assert(pl.subrange(0, pli1.len() as int) == pli1);
    assert forall|q: int| 0 <= q < items[i].len() implies data[x + q] == items[i][q] by {
        assert(pli1[x + q] == items[i][q]);
        assert(pl[x + q] == pli1[x + q]);
    }
    assert(data.subrange(x, z) =~= items[i]);
}

/// The extracted elements of an encoded layer are the originals.
proof fn lemma_tuple_layer_items(items: Seq<Seq<u8>>)
    requires
        items.len() < 0x10000,
        tuple_payload(items, items.len() as int).len() < 0x10000,
    ensures
        tuple_items(tuple_layer(items)) == items,
{
    let n = items.len() as int;
    lemma_tuple_layer_wf(items);
    let s1 = tuple_layer(items);
    let table = seq![0u8, 0u8] + tuple_offbytes(items, n);
    lemma_tuple_off_table(items, n, 0xffff);
    assert(tuple_items(s1) =~~= items) by {
        assert forall|i: int| 0 <= i < n implies tuple_items(s1)[i] =~= items[i] by {
            if i == 0 {
                assert(off_at(table, 0) == 0);
                assert(tuple_payload(items, 0).len() == 0);
            } else {
                assert(off_at(table, (i - 1) + 1) == tuple_payload(items, i).len());
            }
            assert(off_at(table, i + 1) == tuple_payload(items, i + 1).len());
            lemma_tuple_item_one(items, i);
        }
    }
}

/// Decoding an encoded anonymous composite gives back its elements: the
/// codec round-trips, layer by layer.
pub proof fn lemma_tuple_roundtrip(items: Seq<Seq<u8>>)
    requires
        items.len() < 0x10000,
        tuple_payload(items, items.len() as int).len() < 0x10000,
    ensures
        ({
            let n = items.len() as int;
            let b = composite_encode(
                tuple_payload(items, n),
                tuple_offbytes(items, n),
                n as u16,
                3u8,
            );
            &&& wf_cat(b)
            &&& cat_decode(b) == CatModel::Tuple(items)
        }),
{
    let n = items.len() as int;
    let pl = tuple_payload(items, n);
    let b = composite_encode(pl, tuple_offbytes(items, n), n as u16, 3u8);
    let b1 = b.drop_last();
    assert(b1.drop_last() =~= tuple_layer(items));
    lemma_tuple_layer_wf(items);
    lemma_tuple_layer_items(items);
    assert(b.last() == 0);
    assert(b1.last() == 3);
    assert(wf_tuple_body(b1.drop_last()));
    assert(wf_cat(b1));
    assert(wf_cat(b));
    assert(cat_decode(b) == cat_decode(b1));
}

} // verus!
