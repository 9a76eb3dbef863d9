//! Type descriptors: the logical type of an array, its physical layout
//! class, and the child-type rule used when walking an interchange
//! struct tree.

use vstd::prelude::*;

use crate::error::ArrowError;

verus! {

/// The integer types that can serve as dictionary keys and as
/// primitive array elements.
#[derive(Clone, Copy, Debug, PartialEq, Eq, Structural)]
pub enum IntegerType {
    Int8,
    Int16,
    Int32,
    Int64,
    UInt8,
    UInt16,
    UInt32,
    UInt64,
}

/// The in-memory layout class of an array, independent of its logical
/// meaning. Buffer geometry is decided by this class alone.
#[derive(Clone, Copy, Debug, PartialEq, Eq, Structural)]
pub enum PhysicalType {
    Null,
    Boolean,
    Primitive(IntegerType),
    Utf8,
    LargeUtf8,
    Binary,
    LargeBinary,
    FixedSizeBinary,
    List,
    LargeList,
    MapList,
    FixedSizeList,
    BinaryView,
    Utf8View,
    Dictionary(IntegerType),
}

/// The logical type of an array: a closed enumeration over which the
/// interchange layer dispatches.
#[derive(Debug, PartialEq, Eq)]
pub enum DataType {
    Null,
    Boolean,
    Int8,
    Int16,
    Int32,
    Int64,
    UInt8,
    UInt16,
    UInt32,
    UInt64,
    /// Variable-length byte strings holding text, 32-bit offsets.
    Utf8,
    /// Variable-length byte strings holding text, 64-bit offsets.
    LargeUtf8,
    /// Variable-length byte strings, 32-bit offsets.
    Binary,
    /// Variable-length byte strings, 64-bit offsets.
    LargeBinary,
    /// Byte strings of exactly the given width.
    FixedSizeBinary(usize),
    /// Variable-length lists of the inner type, 32-bit offsets.
    List(Box<DataType>),
    /// Variable-length lists of the inner type, 64-bit offsets.
    LargeList(Box<DataType>),
    /// Variable-length entry lists sharing the list geometry, 32-bit
    /// offsets; the flag records whether the entries' keys are sorted.
    MapList(Box<DataType>, bool),
    /// Lists of the inner type with exactly the given width.
    FixedSizeList(Box<DataType>, usize),
    /// View-encoded byte strings.
    BinaryView,
    /// View-encoded byte strings holding text.
    Utf8View,
    /// Dictionary encoding: keys of the integer type referencing a
    /// value pool of the inner type; the flag records whether the pool
    /// is ordered.
    Dictionary(IntegerType, Box<DataType>, bool),
}

impl DataType {
    /// The logical type that this descriptor resolves to. This closed
    /// enumeration carries no wrapper types, so every descriptor is its
    /// own logical type.
    pub fn to_logical_type(&self) -> (r: &DataType)
        ensures
            r == self,
    {
        self
    }

    /// The layout class of this descriptor.
    pub fn to_physical_type(&self) -> (r: PhysicalType)
        ensures
            r == self.physical(),
    {
        match self {
            DataType::Null => PhysicalType::Null,
            DataType::Boolean => PhysicalType::Boolean,
            DataType::Int8 => PhysicalType::Primitive(IntegerType::Int8),
            DataType::Int16 => PhysicalType::Primitive(IntegerType::Int16),
            DataType::Int32 => PhysicalType::Primitive(IntegerType::Int32),
            DataType::Int64 => PhysicalType::Primitive(IntegerType::Int64),
            DataType::UInt8 => PhysicalType::Primitive(IntegerType::UInt8),
            DataType::UInt16 => PhysicalType::Primitive(IntegerType::UInt16),
            DataType::UInt32 => PhysicalType::Primitive(IntegerType::UInt32),
            DataType::UInt64 => PhysicalType::Primitive(IntegerType::UInt64),
            DataType::Utf8 => PhysicalType::Utf8,
            DataType::LargeUtf8 => PhysicalType::LargeUtf8,
            DataType::Binary => PhysicalType::Binary,
            DataType::LargeBinary => PhysicalType::LargeBinary,
            DataType::FixedSizeBinary(_) => PhysicalType::FixedSizeBinary,
            DataType::List(_) => PhysicalType::List,
            DataType::LargeList(_) => PhysicalType::LargeList,
            DataType::MapList(_, _) => PhysicalType::MapList,
            DataType::FixedSizeList(_, _) => PhysicalType::FixedSizeList,
            DataType::BinaryView => PhysicalType::BinaryView,
            DataType::Utf8View => PhysicalType::Utf8View,
            DataType::Dictionary(k, _, _) => PhysicalType::Dictionary(*k),
        }
    }

    /// The layout class, at the specification level.
    pub open spec fn physical(&self) -> PhysicalType {
        match self {
            DataType::Null => PhysicalType::Null,
            DataType::Boolean => PhysicalType::Boolean,
            DataType::Int8 => PhysicalType::Primitive(IntegerType::Int8),
            DataType::Int16 => PhysicalType::Primitive(IntegerType::Int16),
            DataType::Int32 => PhysicalType::Primitive(IntegerType::Int32),
            DataType::Int64 => PhysicalType::Primitive(IntegerType::Int64),
            DataType::UInt8 => PhysicalType::Primitive(IntegerType::UInt8),
            DataType::UInt16 => PhysicalType::Primitive(IntegerType::UInt16),
            DataType::UInt32 => PhysicalType::Primitive(IntegerType::UInt32),
            DataType::UInt64 => PhysicalType::Primitive(IntegerType::UInt64),
            DataType::Utf8 => PhysicalType::Utf8,
            DataType::LargeUtf8 => PhysicalType::LargeUtf8,
            DataType::Binary => PhysicalType::Binary,
            DataType::LargeBinary => PhysicalType::LargeBinary,
            DataType::FixedSizeBinary(_) => PhysicalType::FixedSizeBinary,
            DataType::List(_) => PhysicalType::List,
            DataType::LargeList(_) => PhysicalType::LargeList,
            DataType::MapList(_, _) => PhysicalType::MapList,
            DataType::FixedSizeList(_, _) => PhysicalType::FixedSizeList,
            DataType::BinaryView => PhysicalType::BinaryView,
            DataType::Utf8View => PhysicalType::Utf8View,
            DataType::Dictionary(k, _, _) => PhysicalType::Dictionary(*k),
        }
    }

    /// Structural well-formedness of a descriptor: fixed widths fit
    /// the signed 64-bit fields of the interchange struct (a width of
    /// zero is allowed; its elements are empty).
    pub open spec fn wf(&self) -> bool
        decreases self,
    {
        match self {
            DataType::FixedSizeBinary(s) => *s <= i64::MAX,
            DataType::List(inner) => inner.wf(),
            DataType::LargeList(inner) => inner.wf(),
            DataType::MapList(inner, _) => inner.wf(),
            DataType::FixedSizeList(inner, s) => inner.wf() && *s <= i64::MAX,
            DataType::Dictionary(_, inner, _) => inner.wf(),
            _ => true,
        }
    }
}

/// Structural equality of two descriptors.
pub fn dtype_eq(a: &DataType, b: &DataType) -> (r: bool)
    ensures
        r == (a == b),
    decreases a,
{
    match (a, b) {
        (DataType::Null, DataType::Null) => true,
        (DataType::Boolean, DataType::Boolean) => true,
        (DataType::Int8, DataType::Int8) => true,
        (DataType::Int16, DataType::Int16) => true,
        (DataType::Int32, DataType::Int32) => true,
        (DataType::Int64, DataType::Int64) => true,
        (DataType::UInt8, DataType::UInt8) => true,
        (DataType::UInt16, DataType::UInt16) => true,
        (DataType::UInt32, DataType::UInt32) => true,
        (DataType::UInt64, DataType::UInt64) => true,
        (DataType::Utf8, DataType::Utf8) => true,
        (DataType::LargeUtf8, DataType::LargeUtf8) => true,
        (DataType::Binary, DataType::Binary) => true,
        (DataType::LargeBinary, DataType::LargeBinary) => true,
        (DataType::FixedSizeBinary(x), DataType::FixedSizeBinary(y)) => x == y,
        (DataType::List(x), DataType::List(y)) => dtype_eq(x, y),
        (DataType::LargeList(x), DataType::LargeList(y)) => dtype_eq(x, y),
        (DataType::MapList(x, s), DataType::MapList(y, t)) => s == t && dtype_eq(x, y),
        (DataType::FixedSizeList(x, s), DataType::FixedSizeList(y, t)) => s == t && dtype_eq(
            x,
            y,
        ),
        (DataType::BinaryView, DataType::BinaryView) => true,
        (DataType::Utf8View, DataType::Utf8View) => true,
        (DataType::Dictionary(k, x, o), DataType::Dictionary(l, y, p)) => k == l && o == p
            && dtype_eq(x, y),
        _ => false,
    }
}

/// A deep copy of a descriptor.
pub fn dtype_clone(a: &DataType) -> (r: DataType)
    ensures
        r == *a,
    decreases a,
{
    match a {
        DataType::Null => DataType::Null,
        DataType::Boolean => DataType::Boolean,
        DataType::Int8 => DataType::Int8,
        DataType::Int16 => DataType::Int16,
        DataType::Int32 => DataType::Int32,
        DataType::Int64 => DataType::Int64,
        DataType::UInt8 => DataType::UInt8,
        DataType::UInt16 => DataType::UInt16,
        DataType::UInt32 => DataType::UInt32,
        DataType::UInt64 => DataType::UInt64,
        DataType::Utf8 => DataType::Utf8,
        DataType::LargeUtf8 => DataType::LargeUtf8,
        DataType::Binary => DataType::Binary,
        DataType::LargeBinary => DataType::LargeBinary,
        DataType::FixedSizeBinary(s) => DataType::FixedSizeBinary(*s),
        DataType::List(inner) => DataType::List(Box::new(dtype_clone(inner))),
        DataType::LargeList(inner) => DataType::LargeList(Box::new(dtype_clone(inner))),
        DataType::MapList(inner, sorted) => DataType::MapList(Box::new(dtype_clone(inner)), *sorted),
        DataType::FixedSizeList(inner, s) => DataType::FixedSizeList(
            Box::new(dtype_clone(inner)),
            *s,
        ),
        DataType::BinaryView => DataType::BinaryView,
        DataType::Utf8View => DataType::Utf8View,
        DataType::Dictionary(k, inner, o) => DataType::Dictionary(
            *k,
            Box::new(dtype_clone(inner)),
            *o,
        ),
    }
}

/// The descriptor of a primitive array of the given integer type.
pub fn integer_dtype(it: IntegerType) -> (r: DataType)
    ensures
        r == spec_integer_dtype(it),
{
    match it {
        IntegerType::Int8 => DataType::Int8,
        IntegerType::Int16 => DataType::Int16,
        IntegerType::Int32 => DataType::Int32,
        IntegerType::Int64 => DataType::Int64,
        IntegerType::UInt8 => DataType::UInt8,
        IntegerType::UInt16 => DataType::UInt16,
        IntegerType::UInt32 => DataType::UInt32,
        IntegerType::UInt64 => DataType::UInt64,
    }
}

/// The descriptor of a primitive array, at the specification level.
pub open spec fn spec_integer_dtype(it: IntegerType) -> DataType {
    match it {
        IntegerType::Int8 => DataType::Int8,
        IntegerType::Int16 => DataType::Int16,
        IntegerType::Int32 => DataType::Int32,
        IntegerType::Int64 => DataType::Int64,
        IntegerType::UInt8 => DataType::UInt8,
        IntegerType::UInt16 => DataType::UInt16,
        IntegerType::UInt32 => DataType::UInt32,
        IntegerType::UInt64 => DataType::UInt64,
    }
}

/// The child descriptor at `index`, per the descriptor's own
/// child-type rule: the list types have one child, the element type.
pub fn get_child(dtype: &DataType, index: usize) -> (r: Result<DataType, ArrowError>)
    ensures
        r matches Ok(c) ==> index == 0 && spec_get_child(*dtype) == Some(c),
        r is Err <==> !(index == 0 && spec_get_child(*dtype) is Some),
        r matches Err(e) ==> e == (ArrowError::NoSuchChildType { index }),
{
    match dtype {
        DataType::List(inner) => {
            if index == 0 {
                Ok(dtype_clone(inner))
            } else {
                Err(ArrowError::NoSuchChildType { index })
            }
        },
        DataType::LargeList(inner) => {
            if index == 0 {
                Ok(dtype_clone(inner))
            } else {
                Err(ArrowError::NoSuchChildType { index })
            }
        },
        DataType::MapList(inner, _) => {
            if index == 0 {
                Ok(dtype_clone(inner))
            } else {
                Err(ArrowError::NoSuchChildType { index })
            }
        },
        DataType::FixedSizeList(inner, _) => {
            if index == 0 {
                Ok(dtype_clone(inner))
            } else {
                Err(ArrowError::NoSuchChildType { index })
            }
        },
        _ => Err(ArrowError::NoSuchChildType { index }),
    }
}

/// The child-type rule, at the specification level.
pub open spec fn spec_get_child(dtype: DataType) -> Option<DataType> {
    match dtype {
        DataType::List(inner) => Some(*inner),
        DataType::LargeList(inner) => Some(*inner),
        DataType::MapList(inner, _) => Some(*inner),
        DataType::FixedSizeList(inner, _) => Some(*inner),
        _ => None,
    }
}

} // verus!
