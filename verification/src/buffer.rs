//! Buffer payloads of the interchange struct: a typed slab of
//! elements, together with the address at which the foreign side
//! placed it (the address decides whether a zero-copy wrap of the
//! memory is permitted or a fallback copy is taken).

use vstd::prelude::*;

verus! {

/// The contents of one interchange buffer. A buffer is a contiguous
/// run of elements of a single machine type; which type is meant is
/// decided by the type descriptor of the array that carries it.
#[derive(Debug)]
pub enum BufferData {
    U8(Vec<u8>),
    U16(Vec<u16>),
    U32(Vec<u32>),
    U64(Vec<u64>),
    I8(Vec<i8>),
    I16(Vec<i16>),
    I32(Vec<i32>),
    I64(Vec<i64>),
    /// 16-byte view descriptors of the view-encoded layouts.
    U128(Vec<u128>),
}

impl BufferData {
    /// The number of elements.
    pub open spec fn spec_len(&self) -> nat {
        match self {
            BufferData::U8(v) => v@.len(),
            BufferData::U16(v) => v@.len(),
            BufferData::U32(v) => v@.len(),
            BufferData::U64(v) => v@.len(),
            BufferData::I8(v) => v@.len(),
            BufferData::I16(v) => v@.len(),
            BufferData::I32(v) => v@.len(),
            BufferData::I64(v) => v@.len(),
            BufferData::U128(v) => v@.len(),
        }
    }

    /// The elements, each read as a mathematical integer.
    pub open spec fn ints(&self) -> Seq<int> {
        match self {
            BufferData::U8(v) => Seq::new(v@.len(), |i: int| v@[i] as int),
            BufferData::U16(v) => Seq::new(v@.len(), |i: int| v@[i] as int),
            BufferData::U32(v) => Seq::new(v@.len(), |i: int| v@[i] as int),
            BufferData::U64(v) => Seq::new(v@.len(), |i: int| v@[i] as int),
            BufferData::I8(v) => Seq::new(v@.len(), |i: int| v@[i] as int),
            BufferData::I16(v) => Seq::new(v@.len(), |i: int| v@[i] as int),
            BufferData::I32(v) => Seq::new(v@.len(), |i: int| v@[i] as int),
            BufferData::I64(v) => Seq::new(v@.len(), |i: int| v@[i] as int),
            BufferData::U128(v) => Seq::new(v@.len(), |i: int| v@[i] as int),
        }
    }

    /// The number of elements.
    pub fn len(&self) -> (r: usize)
        ensures
            r == self.spec_len(),
    {
        match self {
            BufferData::U8(v) => v.len(),
            BufferData::U16(v) => v.len(),
            BufferData::U32(v) => v.len(),
            BufferData::U64(v) => v.len(),
            BufferData::I8(v) => v.len(),
            BufferData::I16(v) => v.len(),
            BufferData::I32(v) => v.len(),
            BufferData::I64(v) => v.len(),
            BufferData::U128(v) => v.len(),
        }
    }
}

/// One buffer as the importer sees it: its contents together with the
/// address the foreign producer declared for it.
#[derive(Debug)]
pub struct ForeignBuffer {
    /// The address of the first byte on the foreign side. Only its
    /// remainder modulo the element alignment matters here.
    pub addr: usize,
    pub data: BufferData,
}

} // verus!
