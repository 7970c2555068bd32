//! The catalog's type universe: one marker type per schema tag, its
//! byte, and the stored layout of the primitive ones.
use vstd::prelude::*;

verus! {

/// The stored size and alignment of a type.
pub struct Layout {
    pub size: u16,
    pub align: u16,
}

/// Implemented only inside this crate: keeps [`Primitive`] closed.
pub trait Seal {
}

/// A type stored inline at a fixed size.
pub trait Primitive: Seal {
    /// The stored size and alignment of one value.
    fn layout() -> Layout;
}

/// A marker type knows its one-byte tag.
pub trait NumOf {
    const NUM: u8;
}

pub struct Default;

pub struct Array;

pub struct Enum;

pub struct Tuple;

pub struct Struct;

pub struct Str;

pub struct Nil;

pub struct F64;

pub struct F32;

pub struct U8;

pub struct U16;

pub struct U32;

pub struct U64;

pub struct I8;

pub struct I16;

pub struct I32;

pub struct I64;

impl NumOf for Default {
    const NUM: u8 = 0;
}

impl NumOf for Array {
    const NUM: u8 = 1;
}

impl NumOf for Enum {
    const NUM: u8 = 2;
}

impl NumOf for Tuple {
    const NUM: u8 = 3;
}

impl NumOf for Struct {
    const NUM: u8 = 4;
}

impl NumOf for Str {
    const NUM: u8 = 5;
}

impl NumOf for Nil {
    const NUM: u8 = 6;
}

impl NumOf for F64 {
    const NUM: u8 = 7;
}

impl NumOf for F32 {
    const NUM: u8 = 8;
}

impl NumOf for U8 {
    const NUM: u8 = 9;
}

impl NumOf for U16 {
    const NUM: u8 = 10;
}

impl NumOf for U32 {
    const NUM: u8 = 11;
}

impl NumOf for U64 {
    const NUM: u8 = 12;
}

impl NumOf for I8 {
    const NUM: u8 = 13;
}

impl NumOf for I16 {
    const NUM: u8 = 14;
}

impl NumOf for I32 {
    const NUM: u8 = 15;
}

impl NumOf for I64 {
    const NUM: u8 = 16;
}

impl Seal for I64 {

}

impl Seal for I32 {

}

impl Seal for I16 {

}

impl Seal for I8 {

}

impl Seal for U64 {

}

impl Seal for U32 {

}

impl Seal for U16 {

}

impl Seal for U8 {

}

impl Seal for F64 {

}

impl Seal for F32 {

}

impl Seal for Nil {

}

impl Seal for Str {

}

impl Primitive for I64 {
    fn layout() -> Layout {
        Layout { size: 8, align: 8 }
    }
}

impl Primitive for I32 {
    fn layout() -> Layout {
        Layout { size: 4, align: 4 }
    }
}

impl Primitive for I16 {
    fn layout() -> Layout {
        Layout { size: 2, align: 2 }
    }
}

impl Primitive for I8 {
    fn layout() -> Layout {
        Layout { size: 1, align: 1 }
    }
}

impl Primitive for U64 {
    fn layout() -> Layout {
        Layout { size: 8, align: 8 }
    }
}

impl Primitive for U32 {
    fn layout() -> Layout {
        Layout { size: 4, align: 4 }
    }
}

impl Primitive for U16 {
    fn layout() -> Layout {
        Layout { size: 2, align: 2 }
    }
}

impl Primitive for U8 {
    fn layout() -> Layout {
        Layout { size: 1, align: 1 }
    }
}

impl Primitive for F64 {
    fn layout() -> Layout {
        Layout { size: 8, align: 8 }
    }
}

impl Primitive for F32 {
    fn layout() -> Layout {
        Layout { size: 4, align: 4 }
    }
}

impl Primitive for Nil {
    fn layout() -> Layout {
        Layout { size: 0, align: 1 }
    }
}

impl Primitive for Str {
    fn layout() -> Layout {
        Layout { size: 16, align: 8 }
    }
}

} // verus!
