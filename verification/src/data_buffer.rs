//! Scalar and columnar value buffers, shaped by a schema.
//!
//! A scalar buffer holds one value; a vector buffer holds one byte
//! buffer per column of the schema, values appended row by row.
use vstd::prelude::*;

use crate::bytes::Bytes;
use crate::data_schema::DSchema;
use crate::data_schema::DSchemaRef;
use crate::data_schema::spec_num_columns;
use crate::data_schema::spec_scalar_size;
use crate::data_schema::wf_ds_core;

verus! {

/// One value, stored in a buffer sized by its schema's layout.
pub struct SBuf {
    pub buffer: Bytes,
    pub schema: DSchema,
}

impl SBuf {
    /// A zeroed scalar buffer of the schema's stored size.
    pub fn new(schema: DSchema) -> (r: SBuf)
        requires
            wf_ds_core(schema@),
            spec_scalar_size(schema@) <= usize::MAX,
            crate::data_schema::spec_scalar_align(schema@) <= usize::MAX,
        ensures
            r.schema@ == schema@,
            !r.buffer.is_num(),
            r.buffer@ == Seq::new(spec_scalar_size(schema@) as nat, |i: int| 0u8),
    {
        let size = schema.as_ref().scalar_layout().size;
        let buffer = Bytes::filled(size, 0);
        SBuf { buffer, schema }
    }
}

/// A read-only view of one stored value and its schema.
pub struct SBufRef<'a> {
    pub buffer: &'a [u8],
    pub schema: DSchemaRef<'a>,
}

/// Columnar storage: one byte buffer per column of the schema.
pub struct VBuf {
    pub buffer: Vec<Bytes>,
    pub schema: DSchema,
}

impl VBuf {
    /// Empty columns, one per column of the schema.
    pub fn new(schema: DSchema) -> (r: VBuf)
        requires
            wf_ds_core(schema@),
            spec_num_columns(schema@) <= usize::MAX,
        ensures
            r.schema@ == schema@,
            r.buffer@.len() == spec_num_columns(schema@),
            forall|i: int|
                0 <= i < r.buffer@.len() ==> !(#[trigger] r.buffer@[i]).is_num() && r.buffer@[i]@
                    == Seq::<u8>::empty(),
    {
        let column = schema.as_ref().num_columns();
        let mut buffer: Vec<Bytes> = Vec::new();
        let mut i: usize = 0;
        while i < column
            invariant
                i <= column,
                buffer@.len() == i as int,
                forall|j: int|
                    0 <= j < i ==> !(#[trigger] buffer@[j]).is_num() && buffer@[j]@ == Seq::<
                        u8,
                    >::empty(),
            decreases column - i,
        {
            buffer.push(Bytes::new());
            i = i + 1;
        }
        VBuf { schema, buffer }
    }
}

/// A read-only view of columnar storage.
pub struct VBufRef<'a> {
    pub buffer: &'a [Bytes],
    pub schema: DSchemaRef<'a>,
}

/// A columnar view of a pair: its two halves.
pub struct FlatPairRef<'a>(pub VBufRef<'a>, pub VBufRef<'a>);

/// A columnar view of a zero-sized column: only a row count.
pub struct FlatNilRef(pub u64);

/// A columnar view of a string column: the text of all rows and the
/// offset where each row ends.
pub struct FlatStr<'a> {
    pub offset: &'a [u8],
    pub buffer: &'a str,
}

} // verus!
