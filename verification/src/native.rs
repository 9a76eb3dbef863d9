//! The machine element types that primitive arrays and dictionary
//! keys are made of, and how each reads and writes an interchange
//! buffer payload.

use vstd::prelude::*;

use crate::buffer::BufferData;
use crate::dtype::IntegerType;
use crate::vecs::copy_range;

verus! {

/// A sequence of native elements, each read as a mathematical integer.
pub open spec fn seq_ints<T: Native>(s: Seq<T>) -> Seq<int> {
    Seq::new(s.len(), |i: int| s[i].as_int())
}

/// A fixed-width machine integer type that can be stored in an
/// interchange buffer.
pub trait Native: Copy + Sized {
    /// The value as a mathematical integer.
    spec fn as_int(self) -> int;

    /// The integer tag of this element type.
    spec fn tag() -> IntegerType;

    /// The required alignment of this element type, in bytes.
    spec fn spec_align() -> int;

    /// Whether a buffer payload carries elements of this type.
    spec fn matches(d: BufferData) -> bool;

    /// The integer tag of this element type.
    fn rt_tag() -> (r: IntegerType)
        ensures
            r == Self::tag(),
    ;

    /// The required alignment of this element type, in bytes.
    fn align_of_elem() -> (r: usize)
        ensures
            r == Self::spec_align(),
            1 <= r <= 16,
    ;

    /// The zero value.
    fn zero() -> (r: Self)
        ensures
            r.as_int() == 0,
    ;

    /// Copies elements `start .. start + cnt` out of a buffer payload
    /// of this element type; refuses a payload of another type.
    fn extract_range(d: &BufferData, start: usize, cnt: usize) -> (r: Option<Vec<Self>>)
        requires
            start + cnt <= d.spec_len(),
        ensures
            r is Some <==> Self::matches(*d),
            r matches Some(v) ==> v@.len() == cnt && (forall|i: int|
                0 <= i < cnt ==> #[trigger] v@[i].as_int() == d.ints()[start + i]),
    ;

    /// Wraps a vector of elements as a buffer payload.
    fn wrap(v: Vec<Self>) -> (r: BufferData)
        ensures
            Self::matches(r),
            r.spec_len() == v@.len(),
            forall|i: int| 0 <= i < v@.len() ==> #[trigger] r.ints()[i] == v@[i].as_int(),
    ;
}

impl Native for u8 {
    open spec fn as_int(self) -> int {
        self as int
    }

    open spec fn tag() -> IntegerType {
        IntegerType::UInt8
    }

    open spec fn spec_align() -> int {
        1
    }

    open spec fn matches(d: BufferData) -> bool {
        d is U8
    }

    fn rt_tag() -> (r: IntegerType) {
        IntegerType::UInt8
    }

    fn align_of_elem() -> (r: usize) {
        1
    }

    fn zero() -> (r: Self) {
        0u8
    }

    fn extract_range(d: &BufferData, start: usize, cnt: usize) -> (r: Option<Vec<Self>>) {
        match d {
            BufferData::U8(v) => {
                let out = copy_range(v, start, cnt);
                Some(out)
            },
            _ => None,
        }
    }

    fn wrap(v: Vec<Self>) -> (r: BufferData) {
        BufferData::U8(v)
    }
}

impl Native for u16 {
    open spec fn as_int(self) -> int {
        self as int
    }

    open spec fn tag() -> IntegerType {
        IntegerType::UInt16
    }

    open spec fn spec_align() -> int {
        2
    }

    open spec fn matches(d: BufferData) -> bool {
        d is U16
    }

    fn rt_tag() -> (r: IntegerType) {
        IntegerType::UInt16
    }

    fn align_of_elem() -> (r: usize) {
        2
    }

    fn zero() -> (r: Self) {
        0u16
    }

    fn extract_range(d: &BufferData, start: usize, cnt: usize) -> (r: Option<Vec<Self>>) {
        match d {
            BufferData::U16(v) => {
                let out = copy_range(v, start, cnt);
                Some(out)
            },
            _ => None,
        }
    }

    fn wrap(v: Vec<Self>) -> (r: BufferData) {
        BufferData::U16(v)
    }
}

impl Native for u32 {
    open spec fn as_int(self) -> int {
        self as int
    }

    open spec fn tag() -> IntegerType {
        IntegerType::UInt32
    }

    open spec fn spec_align() -> int {
        4
    }

    open spec fn matches(d: BufferData) -> bool {
        d is U32
    }

    fn rt_tag() -> (r: IntegerType) {
        IntegerType::UInt32
    }

    fn align_of_elem() -> (r: usize) {
        4
    }

    fn zero() -> (r: Self) {
        0u32
    }

    fn extract_range(d: &BufferData, start: usize, cnt: usize) -> (r: Option<Vec<Self>>) {
        match d {
            BufferData::U32(v) => {
                let out = copy_range(v, start, cnt);
                Some(out)
            },
            _ => None,
        }
    }

    fn wrap(v: Vec<Self>) -> (r: BufferData) {
        BufferData::U32(v)
    }
}

impl Native for u64 {
    open spec fn as_int(self) -> int {
        self as int
    }

    open spec fn tag() -> IntegerType {
        IntegerType::UInt64
    }

    open spec fn spec_align() -> int {
        8
    }

    open spec fn matches(d: BufferData) -> bool {
        d is U64
    }

    fn rt_tag() -> (r: IntegerType) {
        IntegerType::UInt64
    }

    fn align_of_elem() -> (r: usize) {
        8
    }

    fn zero() -> (r: Self) {
        0u64
    }

    fn extract_range(d: &BufferData, start: usize, cnt: usize) -> (r: Option<Vec<Self>>) {
        match d {
            BufferData::U64(v) => {
                let out = copy_range(v, start, cnt);
                Some(out)
            },
            _ => None,
        }
    }

    fn wrap(v: Vec<Self>) -> (r: BufferData) {
        BufferData::U64(v)
    }
}

impl Native for i8 {
    open spec fn as_int(self) -> int {
        self as int
    }

    open spec fn tag() -> IntegerType {
        IntegerType::Int8
    }

    open spec fn spec_align() -> int {
        1
    }

    open spec fn matches(d: BufferData) -> bool {
        d is I8
    }

    fn rt_tag() -> (r: IntegerType) {
        IntegerType::Int8
    }

    fn align_of_elem() -> (r: usize) {
        1
    }

    fn zero() -> (r: Self) {
        0i8
    }

    fn extract_range(d: &BufferData, start: usize, cnt: usize) -> (r: Option<Vec<Self>>) {
        match d {
            BufferData::I8(v) => {
                let out = copy_range(v, start, cnt);
                Some(out)
            },
            _ => None,
        }
    }

    fn wrap(v: Vec<Self>) -> (r: BufferData) {
        BufferData::I8(v)
    }
}

impl Native for i16 {
    open spec fn as_int(self) -> int {
        self as int
    }

    open spec fn tag() -> IntegerType {
        IntegerType::Int16
    }

    open spec fn spec_align() -> int {
        2
    }

    open spec fn matches(d: BufferData) -> bool {
        d is I16
    }

    fn rt_tag() -> (r: IntegerType) {
        IntegerType::Int16
    }

    fn align_of_elem() -> (r: usize) {
        2
    }

    fn zero() -> (r: Self) {
        0i16
    }

    fn extract_range(d: &BufferData, start: usize, cnt: usize) -> (r: Option<Vec<Self>>) {
        match d {
            BufferData::I16(v) => {
                let out = copy_range(v, start, cnt);
                Some(out)
            },
            _ => None,
        }
    }

    fn wrap(v: Vec<Self>) -> (r: BufferData) {
        BufferData::I16(v)
    }
}

impl Native for i32 {
    open spec fn as_int(self) -> int {
        self as int
    }

    open spec fn tag() -> IntegerType {
        IntegerType::Int32
    }

    open spec fn spec_align() -> int {
        4
    }

    open spec fn matches(d: BufferData) -> bool {
        d is I32
    }

    fn rt_tag() -> (r: IntegerType) {
        IntegerType::Int32
    }

    fn align_of_elem() -> (r: usize) {
        4
    }

    fn zero() -> (r: Self) {
        0i32
    }

    fn extract_range(d: &BufferData, start: usize, cnt: usize) -> (r: Option<Vec<Self>>) {
        match d {
            BufferData::I32(v) => {
                let out = copy_range(v, start, cnt);
                Some(out)
            },
            _ => None,
        }
    }

    fn wrap(v: Vec<Self>) -> (r: BufferData) {
        BufferData::I32(v)
    }
}

impl Native for i64 {
    open spec fn as_int(self) -> int {
        self as int
    }

    open spec fn tag() -> IntegerType {
        IntegerType::Int64
    }

    open spec fn spec_align() -> int {
        8
    }

    open spec fn matches(d: BufferData) -> bool {
        d is I64
    }

    fn rt_tag() -> (r: IntegerType) {
        IntegerType::Int64
    }

    fn align_of_elem() -> (r: usize) {
        8
    }

    fn zero() -> (r: Self) {
        0i64
    }

    fn extract_range(d: &BufferData, start: usize, cnt: usize) -> (r: Option<Vec<Self>>) {
        match d {
            BufferData::I64(v) => {
                let out = copy_range(v, start, cnt);
                Some(out)
            },
            _ => None,
        }
    }

    fn wrap(v: Vec<Self>) -> (r: BufferData) {
        BufferData::I64(v)
    }
}

} // verus!
