//! The native array tree: a closed enumeration over the supported
//! physical layouts, its well-formedness, and its logical content (the
//! cell model that import and export preserve).

use vstd::prelude::*;

use crate::binview::BinViewArray;
use crate::bitmap::{count_false, Bitmap};
use crate::dictionary::{AnyDictionary, DictionaryArray};
use crate::dtype::{DataType, PhysicalType};
use crate::fixed::{FixedSizeBinaryArray, FixedSizeListArray};
use crate::list::ListArray;
use crate::native::Native;
use crate::primitive::PrimitiveArray;
use crate::dictionary::DictionaryKey;
use crate::varbin::{BinaryArray, Offset};

verus! {

/// The logical value of one array slot.
#[verifier::ext_equal]
pub enum Cell {
    /// A null slot.
    Missing,
    /// A boolean slot.
    Flag(bool),
    /// An integer slot (primitives; dictionary slots resolve to their
    /// pool's cells).
    Number(int),
    /// A byte-string slot.
    Chunk(Seq<u8>),
    /// A list slot: the run of child cells it covers.
    Rows(Seq<Cell>),
}

/// A null-only array: no buffers, only a length.
#[derive(Debug)]
pub struct NullArray {
    pub dtype: DataType,
    pub length: usize,
}

impl NullArray {
    /// Well-formedness: the descriptor is the null type and the
    /// length fits the interchange struct's signed 64-bit field.
    pub open spec fn wf(&self) -> bool {
        self.dtype is Null && self.length <= i64::MAX
    }

    /// A null-only array of the given length.
    pub fn new(dtype: DataType, length: usize) -> (r: Self)
        requires
            dtype is Null,
            length <= i64::MAX,
        ensures
            r.wf(),
            r.dtype == dtype,
            r.length == length,
    {
        NullArray { dtype, length }
    }
}

/// A boolean array: the values are themselves a packed bit buffer.
#[derive(Debug)]
pub struct BooleanArray {
    pub dtype: DataType,
    pub values: Bitmap,
    pub validity: Option<Bitmap>,
}

impl BooleanArray {
    /// Well-formedness: the descriptor is the boolean type, the value
    /// bits are a valid window, and the validity (if any) covers
    /// exactly that window.
    pub open spec fn wf(&self) -> bool {
        &&& self.dtype is Boolean
        &&& self.values.wf()
        &&& self.values.length <= i64::MAX
        &&& self.values.offset + self.values.length <= i64::MAX
        &&& match self.validity {
            Some(v) => v.wf() && v.length == self.values.length,
            None => true,
        }
    }

    /// Ready for export: the validity window starts where the value
    /// window starts.
    pub open spec fn export_ready(&self) -> bool {
        match self.validity {
            Some(v) => v.offset == self.values.offset,
            None => true,
        }
    }

    /// The validity of the window: absent bitmap means all valid.
    pub open spec fn valids(&self) -> Seq<bool> {
        match self.validity {
            Some(v) => v.view(),
            None => Seq::new(self.values.length as nat, |i: int| true),
        }
    }
}

/// A primitive array of any of the supported element widths.
#[derive(Debug)]
pub enum AnyPrimitive {
    U8(PrimitiveArray<u8>),
    U16(PrimitiveArray<u16>),
    U32(PrimitiveArray<u32>),
    U64(PrimitiveArray<u64>),
    I8(PrimitiveArray<i8>),
    I16(PrimitiveArray<i16>),
    I32(PrimitiveArray<i32>),
    I64(PrimitiveArray<i64>),
}

impl AnyPrimitive {
    /// The descriptor.
    pub open spec fn spec_dtype(&self) -> DataType {
        match self {
            AnyPrimitive::U8(pa) => pa.dtype,
            AnyPrimitive::U16(pa) => pa.dtype,
            AnyPrimitive::U32(pa) => pa.dtype,
            AnyPrimitive::U64(pa) => pa.dtype,
            AnyPrimitive::I8(pa) => pa.dtype,
            AnyPrimitive::I16(pa) => pa.dtype,
            AnyPrimitive::I32(pa) => pa.dtype,
            AnyPrimitive::I64(pa) => pa.dtype,
        }
    }

    /// The number of elements of the window.
    pub open spec fn spec_len(&self) -> nat {
        match self {
            AnyPrimitive::U8(pa) => pa.length as nat,
            AnyPrimitive::U16(pa) => pa.length as nat,
            AnyPrimitive::U32(pa) => pa.length as nat,
            AnyPrimitive::U64(pa) => pa.length as nat,
            AnyPrimitive::I8(pa) => pa.length as nat,
            AnyPrimitive::I16(pa) => pa.length as nat,
            AnyPrimitive::I32(pa) => pa.length as nat,
            AnyPrimitive::I64(pa) => pa.length as nat,
        }
    }

    /// Well-formedness of the underlying primitive array.
    pub open spec fn wf(&self) -> bool {
        match self {
            AnyPrimitive::U8(pa) => pa.wf(),
            AnyPrimitive::U16(pa) => pa.wf(),
            AnyPrimitive::U32(pa) => pa.wf(),
            AnyPrimitive::U64(pa) => pa.wf(),
            AnyPrimitive::I8(pa) => pa.wf(),
            AnyPrimitive::I16(pa) => pa.wf(),
            AnyPrimitive::I32(pa) => pa.wf(),
            AnyPrimitive::I64(pa) => pa.wf(),
        }
    }

    /// Ready for export.
    pub open spec fn export_ready(&self) -> bool {
        match self {
            AnyPrimitive::U8(pa) => pa.export_ready(),
            AnyPrimitive::U16(pa) => pa.export_ready(),
            AnyPrimitive::U32(pa) => pa.export_ready(),
            AnyPrimitive::U64(pa) => pa.export_ready(),
            AnyPrimitive::I8(pa) => pa.export_ready(),
            AnyPrimitive::I16(pa) => pa.export_ready(),
            AnyPrimitive::I32(pa) => pa.export_ready(),
            AnyPrimitive::I64(pa) => pa.export_ready(),
        }
    }

    /// The elements of the window, as mathematical integers.
    pub open spec fn ints(&self) -> Seq<int> {
        match self {
            AnyPrimitive::U8(pa) => pa.ints(),
            AnyPrimitive::U16(pa) => pa.ints(),
            AnyPrimitive::U32(pa) => pa.ints(),
            AnyPrimitive::U64(pa) => pa.ints(),
            AnyPrimitive::I8(pa) => pa.ints(),
            AnyPrimitive::I16(pa) => pa.ints(),
            AnyPrimitive::I32(pa) => pa.ints(),
            AnyPrimitive::I64(pa) => pa.ints(),
        }
    }

    /// The validity bitmap, if any.
    pub open spec fn spec_validity(&self) -> Option<Bitmap> {
        match self {
            AnyPrimitive::U8(pa) => pa.validity,
            AnyPrimitive::U16(pa) => pa.validity,
            AnyPrimitive::U32(pa) => pa.validity,
            AnyPrimitive::U64(pa) => pa.validity,
            AnyPrimitive::I8(pa) => pa.validity,
            AnyPrimitive::I16(pa) => pa.validity,
            AnyPrimitive::I32(pa) => pa.validity,
            AnyPrimitive::I64(pa) => pa.validity,
        }
    }

    /// The validity of the window.
    pub open spec fn valids(&self) -> Seq<bool> {
        match self {
            AnyPrimitive::U8(pa) => pa.valids(),
            AnyPrimitive::U16(pa) => pa.valids(),
            AnyPrimitive::U32(pa) => pa.valids(),
            AnyPrimitive::U64(pa) => pa.valids(),
            AnyPrimitive::I8(pa) => pa.valids(),
            AnyPrimitive::I16(pa) => pa.valids(),
            AnyPrimitive::I32(pa) => pa.valids(),
            AnyPrimitive::I64(pa) => pa.valids(),
        }
    }

    /// The descriptor.
    pub fn dtype(&self) -> (r: &DataType)
        ensures
            r == &self.spec_dtype(),
    {
        match self {
            AnyPrimitive::U8(pa) => &pa.dtype,
            AnyPrimitive::U16(pa) => &pa.dtype,
            AnyPrimitive::U32(pa) => &pa.dtype,
            AnyPrimitive::U64(pa) => &pa.dtype,
            AnyPrimitive::I8(pa) => &pa.dtype,
            AnyPrimitive::I16(pa) => &pa.dtype,
            AnyPrimitive::I32(pa) => &pa.dtype,
            AnyPrimitive::I64(pa) => &pa.dtype,
        }
    }

    /// The number of elements of the window.
    pub fn len(&self) -> (r: usize)
        ensures
            r == self.spec_len(),
    {
        match self {
            AnyPrimitive::U8(pa) => pa.len(),
            AnyPrimitive::U16(pa) => pa.len(),
            AnyPrimitive::U32(pa) => pa.len(),
            AnyPrimitive::U64(pa) => pa.len(),
            AnyPrimitive::I8(pa) => pa.len(),
            AnyPrimitive::I16(pa) => pa.len(),
            AnyPrimitive::I32(pa) => pa.len(),
            AnyPrimitive::I64(pa) => pa.len(),
        }
    }

    /// The number of null elements.
    pub fn null_count(&self) -> (r: usize)
        requires
            self.wf(),
        ensures
            r == count_false(self.valids()),
            r <= self.spec_len(),
    {
        match self {
            AnyPrimitive::U8(pa) => pa.null_count(),
            AnyPrimitive::U16(pa) => pa.null_count(),
            AnyPrimitive::U32(pa) => pa.null_count(),
            AnyPrimitive::U64(pa) => pa.null_count(),
            AnyPrimitive::I8(pa) => pa.null_count(),
            AnyPrimitive::I16(pa) => pa.null_count(),
            AnyPrimitive::I32(pa) => pa.null_count(),
            AnyPrimitive::I64(pa) => pa.null_count(),
        }
    }
}

/// The cells of a primitive array: its integers, nulled by validity.
pub open spec fn prim_cells(ints: Seq<int>, valids: Seq<bool>, len: nat) -> Seq<Cell> {
    Seq::new(len, |i: int| if !valids[i] {
        Cell::Missing
    } else {
        Cell::Number(ints[i])
    })
}

/// A native array of any supported physical layout.
#[derive(Debug)]
pub enum Array {
    Null(NullArray),
    Boolean(BooleanArray),
    Primitive(AnyPrimitive),
    Binary(BinaryArray<i32>),
    LargeBinary(BinaryArray<i64>),
    FixedSizeBinary(FixedSizeBinaryArray),
    List(ListArray<i32>),
    LargeList(ListArray<i64>),
    MapList(ListArray<i32>),
    FixedSizeList(FixedSizeListArray),
    BinView(BinViewArray),
    Dictionary(AnyDictionary),
}

impl Array {
    /// The descriptor.
    pub open spec fn spec_dtype(&self) -> DataType {
        match self {
            Array::Null(a) => a.dtype,
            Array::Boolean(a) => a.dtype,
            Array::Primitive(a) => a.spec_dtype(),
            Array::Binary(a) => a.dtype,
            Array::LargeBinary(a) => a.dtype,
            Array::FixedSizeBinary(a) => a.dtype,
            Array::List(a) => a.dtype,
            Array::LargeList(a) => a.dtype,
            Array::MapList(a) => a.dtype,
            Array::FixedSizeList(a) => a.dtype,
            Array::BinView(a) => a.dtype,
            Array::Dictionary(a) => a.spec_dtype(),
        }
    }

    /// The number of elements of the window.
    pub open spec fn spec_len(&self) -> nat {
        match self {
            Array::Null(a) => a.length as nat,
            Array::Boolean(a) => a.values.length as nat,
            Array::Primitive(a) => a.spec_len(),
            Array::Binary(a) => a.length as nat,
            Array::LargeBinary(a) => a.length as nat,
            Array::FixedSizeBinary(a) => a.length as nat,
            Array::List(a) => a.length as nat,
            Array::LargeList(a) => a.length as nat,
            Array::MapList(a) => a.length as nat,
            Array::FixedSizeList(a) => a.length as nat,
            Array::BinView(a) => a.length as nat,
            Array::Dictionary(a) => a.spec_len(),
        }
    }

    /// The validity of the window. A null-only array has every slot
    /// null.
    pub open spec fn valids(&self) -> Seq<bool> {
        match self {
            Array::Null(a) => Seq::new(a.length as nat, |i: int| false),
            Array::Boolean(a) => a.valids(),
            Array::Primitive(a) => a.valids(),
            Array::Binary(a) => a.valids(),
            Array::LargeBinary(a) => a.valids(),
            Array::FixedSizeBinary(a) => a.valids(),
            Array::List(a) => a.valids(),
            Array::LargeList(a) => a.valids(),
            Array::MapList(a) => a.valids(),
            Array::FixedSizeList(a) => a.valids(),
            Array::BinView(a) => a.valids(),
            Array::Dictionary(a) => a.keys_valids(),
        }
    }

    /// The number of null elements.
    pub open spec fn spec_null_count(&self) -> nat {
        count_false(self.valids())
    }

    /// Well-formedness of the whole tree below this node.
    pub open spec fn ok(&self) -> bool
        decreases self,
    {
        match self {
            Array::Null(a) => a.wf(),
            Array::Boolean(a) => a.wf(),
            Array::Primitive(a) => a.wf(),
            Array::Binary(a) => a.wf(),
            Array::LargeBinary(a) => a.wf(),
            Array::FixedSizeBinary(a) => a.wf(),
            Array::List(a) => a.wf() && a.child.ok(),
            Array::LargeList(a) => a.wf() && a.child.ok(),
            Array::MapList(a) => a.wf() && a.child.ok(),
            Array::FixedSizeList(a) => a.wf() && a.child.ok(),
            Array::BinView(a) => a.wf(),
            Array::Dictionary(a) => a.ok(),
        }
    }

    /// Ready for export: throughout the tree, each node's validity
    /// window starts where its value window starts, so one
    /// struct-level offset per node describes all its buffers.
    pub open spec fn spec_export_ready(&self) -> bool
        decreases self,
    {
        match self {
            Array::Null(a) => true,
            Array::Boolean(a) => a.export_ready(),
            Array::Primitive(a) => a.export_ready(),
            Array::Binary(a) => a.export_ready(),
            Array::LargeBinary(a) => a.export_ready(),
            Array::FixedSizeBinary(a) => a.export_ready(),
            Array::List(a) => a.export_ready() && a.child.spec_export_ready(),
            Array::LargeList(a) => a.export_ready() && a.child.spec_export_ready(),
            Array::MapList(a) => a.export_ready() && a.child.spec_export_ready(),
            Array::FixedSizeList(a) => a.export_ready() && a.child.spec_export_ready(),
            Array::BinView(a) => a.export_ready(),
            Array::Dictionary(a) => a.spec_export_ready(),
        }
    }

    /// The logical content of the window, cell by cell.
    pub open spec fn cells(&self) -> Seq<Cell>
        decreases self,
    {
        match self {
            Array::Null(a) => Seq::new(a.length as nat, |i: int| Cell::Missing),
            Array::Boolean(a) => Seq::new(
                a.values.length as nat,
                |i: int| if !a.valids()[i] {
                    Cell::Missing
                } else {
                    Cell::Flag(a.values.view()[i])
                },
            ),
            Array::Primitive(a) => prim_cells(a.ints(), a.valids(), a.spec_len()),
            Array::Binary(a) => Seq::new(
                a.length as nat,
                |i: int| if !a.valids()[i] {
                    Cell::Missing
                } else {
                    Cell::Chunk(a.bytes_at(i))
                },
            ),
            Array::LargeBinary(a) => Seq::new(
                a.length as nat,
                |i: int| if !a.valids()[i] {
                    Cell::Missing
                } else {
                    Cell::Chunk(a.bytes_at(i))
                },
            ),
            Array::FixedSizeBinary(a) => Seq::new(
                a.length as nat,
                |i: int| if !a.valids()[i] {
                    Cell::Missing
                } else {
                    Cell::Chunk(a.bytes_at(i))
                },
            ),
            Array::List(a) => {
                let child_cells = a.child.cells();
                Seq::new(
                    a.length as nat,
                    |i: int| if !a.valids()[i] {
                        Cell::Missing
                    } else {
                        Cell::Rows(child_cells.subrange(a.bound(i), a.bound(i + 1)))
                    },
                )
            },
            Array::LargeList(a) => {
                let child_cells = a.child.cells();
                Seq::new(
                    a.length as nat,
                    |i: int| if !a.valids()[i] {
                        Cell::Missing
                    } else {
                        Cell::Rows(child_cells.subrange(a.bound(i), a.bound(i + 1)))
                    },
                )
            },
            Array::MapList(a) => {
                let child_cells = a.child.cells();
                Seq::new(
                    a.length as nat,
                    |i: int| if !a.valids()[i] {
                        Cell::Missing
                    } else {
                        Cell::Rows(child_cells.subrange(a.bound(i), a.bound(i + 1)))
                    },
                )
            },
            Array::FixedSizeList(a) => {
                let child_cells = a.child.cells();
                let size = a.size();
                Seq::new(
                    a.length as nat,
                    |i: int| if !a.valids()[i] {
                        Cell::Missing
                    } else {
                        Cell::Rows(
                            child_cells.subrange(
                                size * (a.offset + i),
                                size * (a.offset + i + 1),
                            ),
                        )
                    },
                )
            },
            Array::BinView(a) => Seq::new(
                a.length as nat,
                |i: int| if !a.valids()[i] {
                    Cell::Missing
                } else {
                    Cell::Chunk(a.bytes_at(i))
                },
            ),
            Array::Dictionary(a) => a.cells(),
        }
    }

    /// The descriptor.
    pub fn dtype(&self) -> (r: &DataType)
        ensures
            r == &self.spec_dtype(),
    {
        match self {
            Array::Null(a) => &a.dtype,
            Array::Boolean(a) => &a.dtype,
            Array::Primitive(a) => a.dtype(),
            Array::Binary(a) => &a.dtype,
            Array::LargeBinary(a) => &a.dtype,
            Array::FixedSizeBinary(a) => &a.dtype,
            Array::List(a) => &a.dtype,
            Array::LargeList(a) => &a.dtype,
            Array::MapList(a) => &a.dtype,
            Array::FixedSizeList(a) => &a.dtype,
            Array::BinView(a) => &a.dtype,
            Array::Dictionary(a) => a.dtype(),
        }
    }

    /// The number of elements of the window.
    pub fn len(&self) -> (r: usize)
        ensures
            r == self.spec_len(),
    {
        match self {
            Array::Null(a) => a.length,
            Array::Boolean(a) => a.values.len(),
            Array::Primitive(a) => a.len(),
            Array::Binary(a) => a.len(),
            Array::LargeBinary(a) => a.len(),
            Array::FixedSizeBinary(a) => a.len(),
            Array::List(a) => a.len(),
            Array::LargeList(a) => a.len(),
            Array::MapList(a) => a.len(),
            Array::FixedSizeList(a) => a.len(),
            Array::BinView(a) => a.len(),
            Array::Dictionary(a) => a.len(),
        }
    }

    /// The number of null elements, counted from the validity.
    pub fn null_count(&self) -> (r: usize)
        requires
            self.ok(),
        ensures
            r == self.spec_null_count(),
            r <= self.spec_len(),
    {
        match self {
            Array::Null(a) => {
                proof {
                    crate::bitmap::lemma_count_false_all_false(self.valids());
                }
                a.length
            },
            Array::Boolean(a) => match &a.validity {
                Some(v) => v.unset_bits(),
                None => {
                    proof {
                        crate::bitmap::lemma_count_false_all_true(self.valids());
                    }
                    0
                },
            },
            Array::Primitive(a) => a.null_count(),
            Array::Binary(a) => a.null_count(),
            Array::LargeBinary(a) => a.null_count(),
            Array::FixedSizeBinary(a) => match &a.validity {
                Some(v) => v.unset_bits(),
                None => {
                    proof {
                        crate::bitmap::lemma_count_false_all_true(self.valids());
                    }
                    0
                },
            },
            Array::List(a) => match &a.validity {
                Some(v) => v.unset_bits(),
                None => {
                    proof {
                        crate::bitmap::lemma_count_false_all_true(self.valids());
                    }
                    0
                },
            },
            Array::LargeList(a) => match &a.validity {
                Some(v) => v.unset_bits(),
                None => {
                    proof {
                        crate::bitmap::lemma_count_false_all_true(self.valids());
                    }
                    0
                },
            },
            Array::MapList(a) => match &a.validity {
                Some(v) => v.unset_bits(),
                None => {
                    proof {
                        crate::bitmap::lemma_count_false_all_true(self.valids());
                    }
                    0
                },
            },
            Array::FixedSizeList(a) => match &a.validity {
                Some(v) => v.unset_bits(),
                None => {
                    proof {
                        crate::bitmap::lemma_count_false_all_true(self.valids());
                    }
                    0
                },
            },
            Array::BinView(a) => match &a.validity {
                Some(v) => v.unset_bits(),
                None => {
                    proof {
                        crate::bitmap::lemma_count_false_all_true(self.valids());
                    }
                    0
                },
            },
            Array::Dictionary(a) => a.null_count(),
        }
    }
}


impl AnyPrimitive {
    /// A deep copy.
    pub fn clone_any(&self) -> (r: Self)
        ensures
            r.spec_dtype() == self.spec_dtype(),
            r.spec_len() == self.spec_len(),
            r.ints() == self.ints(),
            r.valids() == self.valids(),
            r.wf() == self.wf(),
            r.export_ready() == self.export_ready(),
    {
        match self {
            AnyPrimitive::U8(pa) => AnyPrimitive::U8(pa.clone_array()),
            AnyPrimitive::U16(pa) => AnyPrimitive::U16(pa.clone_array()),
            AnyPrimitive::U32(pa) => AnyPrimitive::U32(pa.clone_array()),
            AnyPrimitive::U64(pa) => AnyPrimitive::U64(pa.clone_array()),
            AnyPrimitive::I8(pa) => AnyPrimitive::I8(pa.clone_array()),
            AnyPrimitive::I16(pa) => AnyPrimitive::I16(pa.clone_array()),
            AnyPrimitive::I32(pa) => AnyPrimitive::I32(pa.clone_array()),
            AnyPrimitive::I64(pa) => AnyPrimitive::I64(pa.clone_array()),
        }
    }
}


impl Array {
    /// The element offset of the window, as the export path publishes
    /// it in the struct's offset field.
    pub open spec fn spec_offset(&self) -> int {
        match self {
            Array::Null(_) => 0,
            Array::Boolean(a) => a.values.offset as int,
            Array::Primitive(p) => match p {
                AnyPrimitive::U8(pa) => pa.offset as int,
                AnyPrimitive::U16(pa) => pa.offset as int,
                AnyPrimitive::U32(pa) => pa.offset as int,
                AnyPrimitive::U64(pa) => pa.offset as int,
                AnyPrimitive::I8(pa) => pa.offset as int,
                AnyPrimitive::I16(pa) => pa.offset as int,
                AnyPrimitive::I32(pa) => pa.offset as int,
                AnyPrimitive::I64(pa) => pa.offset as int,
            },
            Array::Binary(a) => a.offset as int,
            Array::LargeBinary(a) => a.offset as int,
            Array::FixedSizeBinary(a) => a.offset as int,
            Array::List(a) => a.offset as int,
            Array::LargeList(a) => a.offset as int,
            Array::MapList(a) => a.offset as int,
            Array::FixedSizeList(a) => a.offset as int,
            Array::BinView(a) => a.offset as int,
            Array::Dictionary(ad) => match ad {
                crate::dictionary::AnyDictionary::K8(d) => d.keys.offset as int,
                crate::dictionary::AnyDictionary::K16(d) => d.keys.offset as int,
                crate::dictionary::AnyDictionary::K32(d) => d.keys.offset as int,
                crate::dictionary::AnyDictionary::K64(d) => d.keys.offset as int,
                crate::dictionary::AnyDictionary::S8(d) => d.keys.offset as int,
                crate::dictionary::AnyDictionary::S16(d) => d.keys.offset as int,
                crate::dictionary::AnyDictionary::S32(d) => d.keys.offset as int,
                crate::dictionary::AnyDictionary::S64(d) => d.keys.offset as int,
            },
        }
    }

    /// The number of buffer slots the interchange contract assigns to
    /// this layout: none for null arrays, validity plus values for
    /// bit, primitive and dictionary-key layouts, plus an offsets or
    /// data buffer for the variable-length ones, and views plus the
    /// variadic data buffers plus their length table for the
    /// view-encoded ones.
    pub open spec fn spec_n_buffers(&self) -> int {
        match self {
            Array::Null(_) => 0,
            Array::Boolean(_) => 2,
            Array::Primitive(_) => 2,
            Array::Binary(_) => 3,
            Array::LargeBinary(_) => 3,
            Array::FixedSizeBinary(_) => 2,
            Array::List(_) => 2,
            Array::LargeList(_) => 2,
            Array::MapList(_) => 2,
            Array::FixedSizeList(_) => 1,
            Array::BinView(a) => 3 + a.data_buffers@.len() as int,
            Array::Dictionary(_) => 2,
        }
    }

    /// The number of logical children of this layout: one for the
    /// list layouts, none otherwise (the dictionary pool travels on
    /// the dictionary slot, not as a child).
    pub open spec fn spec_n_children(&self) -> int {
        match self {
            Array::List(_) => 1,
            Array::LargeList(_) => 1,
            Array::MapList(_) => 1,
            Array::FixedSizeList(_) => 1,
            _ => 0,
        }
    }
}

/// The number of nodes of an array tree: one per array, its child
/// and its dictionary pool counted recursively.
pub open spec fn arr_nodes(a: Array) -> nat
    decreases a,
{
    match a {
        Array::List(la) => 1 + arr_nodes(*la.child),
        Array::LargeList(la) => 1 + arr_nodes(*la.child),
        Array::MapList(la) => 1 + arr_nodes(*la.child),
        Array::FixedSizeList(fa) => 1 + arr_nodes(*fa.child),
        Array::Dictionary(ad) => 1 + (match ad {
            crate::dictionary::AnyDictionary::K8(d) => arr_nodes(*d.values),
            crate::dictionary::AnyDictionary::K16(d) => arr_nodes(*d.values),
            crate::dictionary::AnyDictionary::K32(d) => arr_nodes(*d.values),
            crate::dictionary::AnyDictionary::K64(d) => arr_nodes(*d.values),
            crate::dictionary::AnyDictionary::S8(d) => arr_nodes(*d.values),
            crate::dictionary::AnyDictionary::S16(d) => arr_nodes(*d.values),
            crate::dictionary::AnyDictionary::S32(d) => arr_nodes(*d.values),
            crate::dictionary::AnyDictionary::S64(d) => arr_nodes(*d.values),
        }),
        _ => 1,
    }
}

/// A well-formed array's descriptor is itself well-formed.
pub proof fn lemma_ok_dtype_wf(a: Array)
    requires
        a.ok(),
    ensures
        a.spec_dtype().wf(),
    decreases a,
{
    reveal_with_fuel(Array::ok, 3);
    match a {
        Array::List(la) => {
            lemma_ok_dtype_wf(*la.child);
        },
        Array::LargeList(la) => {
            lemma_ok_dtype_wf(*la.child);
        },
        Array::MapList(la) => {
            lemma_ok_dtype_wf(*la.child);
        },
        Array::FixedSizeList(fa) => {
            lemma_ok_dtype_wf(*fa.child);
        },
        Array::Dictionary(ad) => {
            match ad {
                crate::dictionary::AnyDictionary::K8(d) => lemma_ok_dtype_wf(*d.values),
                crate::dictionary::AnyDictionary::K16(d) => lemma_ok_dtype_wf(*d.values),
                crate::dictionary::AnyDictionary::K32(d) => lemma_ok_dtype_wf(*d.values),
                crate::dictionary::AnyDictionary::K64(d) => lemma_ok_dtype_wf(*d.values),
                crate::dictionary::AnyDictionary::S8(d) => lemma_ok_dtype_wf(*d.values),
                crate::dictionary::AnyDictionary::S16(d) => lemma_ok_dtype_wf(*d.values),
                crate::dictionary::AnyDictionary::S32(d) => lemma_ok_dtype_wf(*d.values),
                crate::dictionary::AnyDictionary::S64(d) => lemma_ok_dtype_wf(*d.values),
            }
        },
        _ => {},
    }
}

/// A deep copy of an array tree: same descriptor, same content, same
/// shape; well-formedness and export readiness carry over.
#[verifier::rlimit(100)]
#[verifier::spinoff_prover]
pub fn clone_array(a: &Array) -> (r: Array)
    ensures
        r.spec_dtype() == a.spec_dtype(),
        r.spec_len() == a.spec_len(),
        r.valids() =~= a.valids(),
        r.cells() =~~= a.cells(),
        a.ok() ==> r.ok(),
        a.spec_export_ready() ==> r.spec_export_ready(),
        arr_nodes(r) == arr_nodes(*a),
    decreases arr_nodes(*a),
{
    match a {
        Array::Null(n) => Array::Null(
            NullArray { dtype: crate::dtype::dtype_clone(&n.dtype), length: n.length },
        ),
        Array::Boolean(b) => {
            let r = Array::Boolean(
                BooleanArray {
                    dtype: crate::dtype::dtype_clone(&b.dtype),
                    values: crate::bitmap::bitmap_clone(&b.values),
                    validity: crate::bitmap::opt_bitmap_clone(&b.validity),
                },
            );
            proof {
                assert(r.valids() =~= a.valids());
                assert(r.cells() =~~= a.cells());
            }
            r
        },
        Array::Primitive(p) => {
            let r = Array::Primitive(p.clone_any());
            proof {
                assert(r.cells() =~~= a.cells());
            }
            r
        },
        Array::Binary(ba) => {
            let r = Array::Binary(
                crate::varbin::BinaryArray {
                    dtype: crate::dtype::dtype_clone(&ba.dtype),
                    offsets: crate::vecs::copy_all(&ba.offsets),
                    data: crate::vecs::copy_all(&ba.data),
                    offset: ba.offset,
                    length: ba.length,
                    validity: crate::bitmap::opt_bitmap_clone(&ba.validity),
                },
            );
            proof {
                assert(r.valids() =~= a.valids());
                assert(r.cells() =~~= a.cells());
            }
            r
        },
        Array::LargeBinary(ba) => {
            let r = Array::LargeBinary(
                crate::varbin::BinaryArray {
                    dtype: crate::dtype::dtype_clone(&ba.dtype),
                    offsets: crate::vecs::copy_all(&ba.offsets),
                    data: crate::vecs::copy_all(&ba.data),
                    offset: ba.offset,
                    length: ba.length,
                    validity: crate::bitmap::opt_bitmap_clone(&ba.validity),
                },
            );
            proof {
                assert(r.valids() =~= a.valids());
                assert(r.cells() =~~= a.cells());
            }
            r
        },
        Array::FixedSizeBinary(fa) => {
            let r = Array::FixedSizeBinary(
                crate::fixed::FixedSizeBinaryArray {
                    dtype: crate::dtype::dtype_clone(&fa.dtype),
                    data: crate::vecs::copy_all(&fa.data),
                    offset: fa.offset,
                    length: fa.length,
                    validity: crate::bitmap::opt_bitmap_clone(&fa.validity),
                },
            );
            proof {
                assert(r.valids() =~= a.valids());
                assert(r.cells() =~~= a.cells());
            }
            r
        },
        Array::List(la) => {
            let child = Box::new(clone_array(&la.child));
            let r = Array::List(
                crate::list::ListArray {
                    dtype: crate::dtype::dtype_clone(&la.dtype),
                    offsets: crate::vecs::copy_all(&la.offsets),
                    child,
                    offset: la.offset,
                    length: la.length,
                    validity: crate::bitmap::opt_bitmap_clone(&la.validity),
                },
            );
            proof {
                assert(r.valids() =~= a.valids());
                assert(r.cells() =~~= a.cells());
            }
            r
        },
        Array::LargeList(la) => {
            let child = Box::new(clone_array(&la.child));
            let r = Array::LargeList(
                crate::list::ListArray {
                    dtype: crate::dtype::dtype_clone(&la.dtype),
                    offsets: crate::vecs::copy_all(&la.offsets),
                    child,
                    offset: la.offset,
                    length: la.length,
                    validity: crate::bitmap::opt_bitmap_clone(&la.validity),
                },
            );
            proof {
                assert(r.valids() =~= a.valids());
                assert(r.cells() =~~= a.cells());
            }
            r
        },
        Array::MapList(la) => {
            let child = Box::new(clone_array(&la.child));
            let r = Array::MapList(
                crate::list::ListArray {
                    dtype: crate::dtype::dtype_clone(&la.dtype),
                    offsets: crate::vecs::copy_all(&la.offsets),
                    child,
                    offset: la.offset,
                    length: la.length,
                    validity: crate::bitmap::opt_bitmap_clone(&la.validity),
                },
            );
            proof {
                assert(r.valids() =~= a.valids());
                assert(r.cells() =~~= a.cells());
            }
            r
        },
        Array::FixedSizeList(fa) => {
            let child = Box::new(clone_array(&fa.child));
            let r = Array::FixedSizeList(
                crate::fixed::FixedSizeListArray {
                    dtype: crate::dtype::dtype_clone(&fa.dtype),
                    child,
                    offset: fa.offset,
                    length: fa.length,
                    validity: crate::bitmap::opt_bitmap_clone(&fa.validity),
                },
            );
            proof {
                assert(r.valids() =~= a.valids());
                assert(r.cells() =~~= a.cells());
            }
            r
        },
        Array::BinView(va) => {
            let mut bufs: Vec<Vec<u8>> = Vec::new();
            let mut i: usize = 0;
            while i < va.data_buffers.len()
                invariant
                    i <= va.data_buffers@.len(),
                    bufs@.len() == i,
                    forall|j: int| 0 <= j < i ==> (#[trigger] bufs@[j])@ == va.data_buffers@[j]@,
                decreases va.data_buffers@.len() - i,
            {
                bufs.push(crate::vecs::copy_all(&va.data_buffers[i]));
                i = i + 1;
            }
            let r = Array::BinView(
                crate::binview::BinViewArray {
                    dtype: crate::dtype::dtype_clone(&va.dtype),
                    views: crate::vecs::copy_all(&va.views),
                    data_buffers: bufs,
                    offset: va.offset,
                    length: va.length,
                    validity: crate::bitmap::opt_bitmap_clone(&va.validity),
                },
            );
            proof {
                let ghost rsnap = r;
                let rv = (match rsnap {
                    Array::BinView(x) => x,
                    _ => arbitrary(),
                });
                assert(rv.bufs() =~~= va.bufs());
                assert(r.valids() =~= a.valids());
                assert forall|i2: int| 0 <= i2 < va.length implies rv.bytes_at(i2) =~~= va.bytes_at(
                    i2,
                ) by {
                    assert(rv.views@[rv.offset + i2] == va.views@[va.offset + i2]);
                }
                assert(r.cells() =~~= a.cells());
                if va.wf() {
                    assert forall|i2: int| 0 <= i2 < rv.views@.len() implies
                        crate::binview::view_ok(#[trigger] rv.views@[i2], rv.bufs()) by {
                        assert(rv.views@[i2] == va.views@[i2]);
                        assert(crate::binview::view_ok(va.views@[i2], va.bufs()));
                    }
                    assert forall|j: int| 0 <= j < rv.data_buffers@.len() implies (
                    #[trigger] rv.data_buffers@[j]@.len()) <= i64::MAX by {
                        assert(rv.data_buffers@[j]@ == va.data_buffers@[j]@);
                        assert(va.data_buffers@[j]@.len() <= i64::MAX);
                    }
                    assert(rv.wf());
                }
            }
            r
        },
            Array::Dictionary(crate::dictionary::AnyDictionary::K8(d)) => {
                let keys = d.keys.clone_array();
                let values = Box::new(clone_array(&d.values));
                let r = Array::Dictionary(
                    crate::dictionary::AnyDictionary::K8(
                        crate::dictionary::DictionaryArray {
                            dtype: crate::dtype::dtype_clone(&d.dtype),
                            keys,
                            values,
                        },
                    ),
                );
                proof {
                    reveal_with_fuel(Array::cells, 3);
                    reveal_with_fuel(Array::ok, 3);
                    reveal_with_fuel(Array::spec_export_ready, 3);
                    reveal_with_fuel(arr_nodes, 3);
                    assert(r.cells() =~~= a.cells());
                    assert(arr_nodes(r) == arr_nodes(*a));
                    assert(a.ok() ==> r.ok());
                    assert(a.spec_export_ready() ==> r.spec_export_ready());
                }
                r
            },
            Array::Dictionary(crate::dictionary::AnyDictionary::K16(d)) => {
                let keys = d.keys.clone_array();
                let values = Box::new(clone_array(&d.values));
                let r = Array::Dictionary(
                    crate::dictionary::AnyDictionary::K16(
                        crate::dictionary::DictionaryArray {
                            dtype: crate::dtype::dtype_clone(&d.dtype),
                            keys,
                            values,
                        },
                    ),
                );
                proof {
                    reveal_with_fuel(Array::cells, 3);
                    reveal_with_fuel(Array::ok, 3);
                    reveal_with_fuel(Array::spec_export_ready, 3);
                    reveal_with_fuel(arr_nodes, 3);
                    assert(r.cells() =~~= a.cells());
                    assert(arr_nodes(r) == arr_nodes(*a));
                    assert(a.ok() ==> r.ok());
                    assert(a.spec_export_ready() ==> r.spec_export_ready());
                }
                r
            },
            Array::Dictionary(crate::dictionary::AnyDictionary::K32(d)) => {
                let keys = d.keys.clone_array();
                let values = Box::new(clone_array(&d.values));
                let r = Array::Dictionary(
                    crate::dictionary::AnyDictionary::K32(
                        crate::dictionary::DictionaryArray {
                            dtype: crate::dtype::dtype_clone(&d.dtype),
                            keys,
                            values,
                        },
                    ),
                );
                proof {
                    reveal_with_fuel(Array::cells, 3);
                    reveal_with_fuel(Array::ok, 3);
                    reveal_with_fuel(Array::spec_export_ready, 3);
                    reveal_with_fuel(arr_nodes, 3);
                    assert(r.cells() =~~= a.cells());
                    assert(arr_nodes(r) == arr_nodes(*a));
                    assert(a.ok() ==> r.ok());
                    assert(a.spec_export_ready() ==> r.spec_export_ready());
                }
                r
            },
            Array::Dictionary(crate::dictionary::AnyDictionary::K64(d)) => {
                let keys = d.keys.clone_array();
                let values = Box::new(clone_array(&d.values));
                let r = Array::Dictionary(
                    crate::dictionary::AnyDictionary::K64(
                        crate::dictionary::DictionaryArray {
                            dtype: crate::dtype::dtype_clone(&d.dtype),
                            keys,
                            values,
                        },
                    ),
                );
                proof {
                    reveal_with_fuel(Array::cells, 3);
                    reveal_with_fuel(Array::ok, 3);
                    reveal_with_fuel(Array::spec_export_ready, 3);
                    reveal_with_fuel(arr_nodes, 3);
                    assert(r.cells() =~~= a.cells());
                    assert(arr_nodes(r) == arr_nodes(*a));
                    assert(a.ok() ==> r.ok());
                    assert(a.spec_export_ready() ==> r.spec_export_ready());
                }
                r
            },
            Array::Dictionary(crate::dictionary::AnyDictionary::S8(d)) => {
                let keys = d.keys.clone_array();
                let values = Box::new(clone_array(&d.values));
                let r = Array::Dictionary(
                    crate::dictionary::AnyDictionary::S8(
                        crate::dictionary::DictionaryArray {
                            dtype: crate::dtype::dtype_clone(&d.dtype),
                            keys,
                            values,
                        },
                    ),
                );
                proof {
                    reveal_with_fuel(Array::cells, 3);
                    reveal_with_fuel(Array::ok, 3);
                    reveal_with_fuel(Array::spec_export_ready, 3);
                    reveal_with_fuel(arr_nodes, 3);
                    assert(r.cells() =~~= a.cells());
                    assert(arr_nodes(r) == arr_nodes(*a));
                    assert(a.ok() ==> r.ok());
                    assert(a.spec_export_ready() ==> r.spec_export_ready());
                }
                r
            },
            Array::Dictionary(crate::dictionary::AnyDictionary::S16(d)) => {
                let keys = d.keys.clone_array();
                let values = Box::new(clone_array(&d.values));
                let r = Array::Dictionary(
                    crate::dictionary::AnyDictionary::S16(
                        crate::dictionary::DictionaryArray {
                            dtype: crate::dtype::dtype_clone(&d.dtype),
                            keys,
                            values,
                        },
                    ),
                );
                proof {
                    reveal_with_fuel(Array::cells, 3);
                    reveal_with_fuel(Array::ok, 3);
                    reveal_with_fuel(Array::spec_export_ready, 3);
                    reveal_with_fuel(arr_nodes, 3);
                    assert(r.cells() =~~= a.cells());
                    assert(arr_nodes(r) == arr_nodes(*a));
                    assert(a.ok() ==> r.ok());
                    assert(a.spec_export_ready() ==> r.spec_export_ready());
                }
                r
            },
            Array::Dictionary(crate::dictionary::AnyDictionary::S32(d)) => {
                let keys = d.keys.clone_array();
                let values = Box::new(clone_array(&d.values));
                let r = Array::Dictionary(
                    crate::dictionary::AnyDictionary::S32(
                        crate::dictionary::DictionaryArray {
                            dtype: crate::dtype::dtype_clone(&d.dtype),
                            keys,
                            values,
                        },
                    ),
                );
                proof {
                    reveal_with_fuel(Array::cells, 3);
                    reveal_with_fuel(Array::ok, 3);
                    reveal_with_fuel(Array::spec_export_ready, 3);
                    reveal_with_fuel(arr_nodes, 3);
                    assert(r.cells() =~~= a.cells());
                    assert(arr_nodes(r) == arr_nodes(*a));
                    assert(a.ok() ==> r.ok());
                    assert(a.spec_export_ready() ==> r.spec_export_ready());
                }
                r
            },
            Array::Dictionary(crate::dictionary::AnyDictionary::S64(d)) => {
                let keys = d.keys.clone_array();
                let values = Box::new(clone_array(&d.values));
                let r = Array::Dictionary(
                    crate::dictionary::AnyDictionary::S64(
                        crate::dictionary::DictionaryArray {
                            dtype: crate::dtype::dtype_clone(&d.dtype),
                            keys,
                            values,
                        },
                    ),
                );
                proof {
                    reveal_with_fuel(Array::cells, 3);
                    reveal_with_fuel(Array::ok, 3);
                    reveal_with_fuel(Array::spec_export_ready, 3);
                    reveal_with_fuel(arr_nodes, 3);
                    assert(r.cells() =~~= a.cells());
                    assert(arr_nodes(r) == arr_nodes(*a));
                    assert(a.ok() ==> r.ok());
                    assert(a.spec_export_ready() ==> r.spec_export_ready());
                }
                r
            },
    }
}

/// An empty array of the given descriptor: zero elements throughout,
/// with empty children and an empty dictionary pool where the
/// descriptor demands them.
#[verifier::rlimit(100)]
#[verifier::spinoff_prover]
pub fn new_empty_array(dtype: DataType) -> (r: Array)
    requires
        dtype.wf(),
    ensures
        r.ok(),
        r.spec_export_ready(),
        r.spec_dtype() == dtype,
        r.spec_len() == 0,
    decreases dtype,
{
    let r = match dtype {
        DataType::Null => Array::Null(NullArray { dtype, length: 0 }),
        DataType::Boolean => Array::Boolean(
            BooleanArray { dtype, values: Bitmap::empty(), validity: None },
        ),
        DataType::Int8 => Array::Primitive(AnyPrimitive::I8(PrimitiveArray::<i8>::new_empty(dtype))),
        DataType::Int16 => Array::Primitive(AnyPrimitive::I16(PrimitiveArray::<i16>::new_empty(dtype))),
        DataType::Int32 => Array::Primitive(AnyPrimitive::I32(PrimitiveArray::<i32>::new_empty(dtype))),
        DataType::Int64 => Array::Primitive(AnyPrimitive::I64(PrimitiveArray::<i64>::new_empty(dtype))),
        DataType::UInt8 => Array::Primitive(AnyPrimitive::U8(PrimitiveArray::<u8>::new_empty(dtype))),
        DataType::UInt16 => Array::Primitive(AnyPrimitive::U16(PrimitiveArray::<u16>::new_empty(dtype))),
        DataType::UInt32 => Array::Primitive(AnyPrimitive::U32(PrimitiveArray::<u32>::new_empty(dtype))),
        DataType::UInt64 => Array::Primitive(AnyPrimitive::U64(PrimitiveArray::<u64>::new_empty(dtype))),
        DataType::Utf8 | DataType::Binary => {
            let mut offsets: Vec<i32> = Vec::new();
            offsets.push(0i32);
            Array::Binary(
                crate::varbin::BinaryArray {
                    dtype,
                    offsets,
                    data: Vec::new(),
                    offset: 0,
                    length: 0,
                    validity: None,
                },
            )
        },
        DataType::LargeUtf8 | DataType::LargeBinary => {
            let mut offsets: Vec<i64> = Vec::new();
            offsets.push(0i64);
            Array::LargeBinary(
                crate::varbin::BinaryArray {
                    dtype,
                    offsets,
                    data: Vec::new(),
                    offset: 0,
                    length: 0,
                    validity: None,
                },
            )
        },
        DataType::FixedSizeBinary(_) => Array::FixedSizeBinary(
            crate::fixed::FixedSizeBinaryArray {
                dtype,
                data: Vec::new(),
                offset: 0,
                length: 0,
                validity: None,
            },
        ),
        DataType::List(inner) => {
            let child = new_empty_array(crate::dtype::dtype_clone(&inner));
            let mut offsets: Vec<i32> = Vec::new();
            offsets.push(0i32);
            Array::List(
                crate::list::ListArray {
                    dtype: DataType::List(inner),
                    offsets,
                    child: Box::new(child),
                    offset: 0,
                    length: 0,
                    validity: None,
                },
            )
        },
        DataType::LargeList(inner) => {
            let child = new_empty_array(crate::dtype::dtype_clone(&inner));
            let mut offsets: Vec<i64> = Vec::new();
            offsets.push(0i64);
            Array::LargeList(
                crate::list::ListArray {
                    dtype: DataType::LargeList(inner),
                    offsets,
                    child: Box::new(child),
                    offset: 0,
                    length: 0,
                    validity: None,
                },
            )
        },
        DataType::MapList(inner, sorted) => {
            let child = new_empty_array(crate::dtype::dtype_clone(&inner));
            let mut offsets: Vec<i32> = Vec::new();
            offsets.push(0i32);
            Array::MapList(
                crate::list::ListArray {
                    dtype: DataType::MapList(inner, sorted),
                    offsets,
                    child: Box::new(child),
                    offset: 0,
                    length: 0,
                    validity: None,
                },
            )
        },
        DataType::FixedSizeList(inner, s) => {
            let child = new_empty_array(crate::dtype::dtype_clone(&inner));
            Array::FixedSizeList(
                crate::fixed::FixedSizeListArray {
                    dtype: DataType::FixedSizeList(inner, s),
                    child: Box::new(child),
                    offset: 0,
                    length: 0,
                    validity: None,
                },
            )
        },
        DataType::BinaryView | DataType::Utf8View => Array::BinView(
            crate::binview::BinViewArray {
                dtype,
                views: Vec::new(),
                data_buffers: Vec::new(),
                offset: 0,
                length: 0,
                validity: None,
            },
        ),
        DataType::Dictionary(it, inner, ordered) => {
            let values = Box::new(new_empty_array(crate::dtype::dtype_clone(&inner)));
            let dtype = DataType::Dictionary(it, inner, ordered);
            match it {
                crate::dtype::IntegerType::Int8 => {
                    let keys = PrimitiveArray::<i8>::new_empty(crate::dtype::integer_dtype(
                        crate::dtype::IntegerType::Int8,
                    ));
                    let d = crate::dictionary::DictionaryArray { dtype, keys, values };
                    let r = Array::Dictionary(crate::dictionary::AnyDictionary::S8(d));
                    proof {
                        reveal_with_fuel(Array::ok, 3);
                        reveal_with_fuel(Array::spec_export_ready, 3);
                        assert(r.ok());
                    }
                    r
                },
                crate::dtype::IntegerType::Int16 => {
                    let keys = PrimitiveArray::<i16>::new_empty(crate::dtype::integer_dtype(
                        crate::dtype::IntegerType::Int16,
                    ));
                    let d = crate::dictionary::DictionaryArray { dtype, keys, values };
                    let r = Array::Dictionary(crate::dictionary::AnyDictionary::S16(d));
                    proof {
                        reveal_with_fuel(Array::ok, 3);
                        reveal_with_fuel(Array::spec_export_ready, 3);
                        assert(r.ok());
                    }
                    r
                },
                crate::dtype::IntegerType::Int32 => {
                    let keys = PrimitiveArray::<i32>::new_empty(crate::dtype::integer_dtype(
                        crate::dtype::IntegerType::Int32,
                    ));
                    let d = crate::dictionary::DictionaryArray { dtype, keys, values };
                    let r = Array::Dictionary(crate::dictionary::AnyDictionary::S32(d));
                    proof {
                        reveal_with_fuel(Array::ok, 3);
                        reveal_with_fuel(Array::spec_export_ready, 3);
                        assert(r.ok());
                    }
                    r
                },
                crate::dtype::IntegerType::Int64 => {
                    let keys = PrimitiveArray::<i64>::new_empty(crate::dtype::integer_dtype(
                        crate::dtype::IntegerType::Int64,
                    ));
                    let d = crate::dictionary::DictionaryArray { dtype, keys, values };
                    let r = Array::Dictionary(crate::dictionary::AnyDictionary::S64(d));
                    proof {
                        reveal_with_fuel(Array::ok, 3);
                        reveal_with_fuel(Array::spec_export_ready, 3);
                        assert(r.ok());
                    }
                    r
                },
                crate::dtype::IntegerType::UInt8 => {
                    let keys = PrimitiveArray::<u8>::new_empty(crate::dtype::integer_dtype(
                        crate::dtype::IntegerType::UInt8,
                    ));
                    let d = crate::dictionary::DictionaryArray { dtype, keys, values };
                    let r = Array::Dictionary(crate::dictionary::AnyDictionary::K8(d));
                    proof {
                        reveal_with_fuel(Array::ok, 3);
                        reveal_with_fuel(Array::spec_export_ready, 3);
                        assert(r.ok());
                    }
                    r
                },
                crate::dtype::IntegerType::UInt16 => {
                    let keys = PrimitiveArray::<u16>::new_empty(crate::dtype::integer_dtype(
                        crate::dtype::IntegerType::UInt16,
                    ));
                    let d = crate::dictionary::DictionaryArray { dtype, keys, values };
                    let r = Array::Dictionary(crate::dictionary::AnyDictionary::K16(d));
                    proof {
                        reveal_with_fuel(Array::ok, 3);
                        reveal_with_fuel(Array::spec_export_ready, 3);
                        assert(r.ok());
                    }
                    r
                },
                crate::dtype::IntegerType::UInt32 => {
                    let keys = PrimitiveArray::<u32>::new_empty(crate::dtype::integer_dtype(
                        crate::dtype::IntegerType::UInt32,
                    ));
                    let d = crate::dictionary::DictionaryArray { dtype, keys, values };
                    let r = Array::Dictionary(crate::dictionary::AnyDictionary::K32(d));
                    proof {
                        reveal_with_fuel(Array::ok, 3);
                        reveal_with_fuel(Array::spec_export_ready, 3);
                        assert(r.ok());
                    }
                    r
                },
                crate::dtype::IntegerType::UInt64 => {
                    let keys = PrimitiveArray::<u64>::new_empty(crate::dtype::integer_dtype(
                        crate::dtype::IntegerType::UInt64,
                    ));
                    let d = crate::dictionary::DictionaryArray { dtype, keys, values };
                    let r = Array::Dictionary(crate::dictionary::AnyDictionary::K64(d));
                    proof {
                        reveal_with_fuel(Array::ok, 3);
                        reveal_with_fuel(Array::spec_export_ready, 3);
                        assert(r.ok());
                    }
                    r
                },
            }
        },
    };
    proof {
        reveal_with_fuel(Array::ok, 3);
        reveal_with_fuel(Array::spec_export_ready, 3);
        assert(r.ok());
        assert(r.spec_export_ready());
    }
    r
}

/// Whether a null-only array of `len` elements under this descriptor
/// fits the machine's limits: fixed widths scale the length.
pub open spec fn null_fits(dtype: DataType, len: int) -> bool
    decreases dtype,
{
    &&& 0 <= len <= i64::MAX
    &&& len + 1 <= usize::MAX
    &&& match dtype {
        DataType::FixedSizeBinary(s) => s * len <= usize::MAX && s * len <= i64::MAX,
        DataType::FixedSizeList(inner, s) => s * len <= usize::MAX && s * len <= i64::MAX
            && null_fits(*inner, s * len),
        DataType::Dictionary(_, inner, _) => null_fits(*inner, 1),
        _ => true,
    }
}

/// An all-null array of the given descriptor and length.
#[verifier::rlimit(100)]
#[verifier::spinoff_prover]
pub fn new_null_array(dtype: DataType, length: usize) -> (r: Array)
    requires
        dtype.wf(),
        null_fits(dtype, length as int),
    ensures
        r.ok(),
        r.spec_export_ready(),
        r.spec_dtype() == dtype,
        r.spec_len() == length,
        crate::bitmap::count_false(r.valids()) == length,
    decreases dtype,
{
    let ghost goal = length;
    let r = match dtype {
        DataType::Null => Array::Null(NullArray { dtype, length }),
        DataType::Boolean => Array::Boolean(
            BooleanArray {
                dtype,
                values: Bitmap::zeroed(length),
                validity: Some(Bitmap::zeroed(length)),
            },
        ),
        DataType::Int8 => Array::Primitive(AnyPrimitive::I8(PrimitiveArray::<i8>::new_null(dtype, length))),
        DataType::Int16 => Array::Primitive(AnyPrimitive::I16(PrimitiveArray::<i16>::new_null(dtype, length))),
        DataType::Int32 => Array::Primitive(AnyPrimitive::I32(PrimitiveArray::<i32>::new_null(dtype, length))),
        DataType::Int64 => Array::Primitive(AnyPrimitive::I64(PrimitiveArray::<i64>::new_null(dtype, length))),
        DataType::UInt8 => Array::Primitive(AnyPrimitive::U8(PrimitiveArray::<u8>::new_null(dtype, length))),
        DataType::UInt16 => Array::Primitive(AnyPrimitive::U16(PrimitiveArray::<u16>::new_null(dtype, length))),
        DataType::UInt32 => Array::Primitive(AnyPrimitive::U32(PrimitiveArray::<u32>::new_null(dtype, length))),
        DataType::UInt64 => Array::Primitive(AnyPrimitive::U64(PrimitiveArray::<u64>::new_null(dtype, length))),
        DataType::Utf8 | DataType::Binary => {
            let offsets: Vec<i32> = crate::vecs::filled(0i32, length + 1);
            Array::Binary(
                crate::varbin::BinaryArray {
                    dtype,
                    offsets,
                    data: Vec::new(),
                    offset: 0,
                    length,
                    validity: Some(Bitmap::zeroed(length)),
                },
            )
        },
        DataType::LargeUtf8 | DataType::LargeBinary => {
            let offsets: Vec<i64> = crate::vecs::filled(0i64, length + 1);
            Array::LargeBinary(
                crate::varbin::BinaryArray {
                    dtype,
                    offsets,
                    data: Vec::new(),
                    offset: 0,
                    length,
                    validity: Some(Bitmap::zeroed(length)),
                },
            )
        },
        DataType::FixedSizeBinary(s) => {
            let data = crate::vecs::filled(0u8, s * length);
            Array::FixedSizeBinary(
                crate::fixed::FixedSizeBinaryArray {
                    dtype,
                    data,
                    offset: 0,
                    length,
                    validity: Some(Bitmap::zeroed(length)),
                },
            )
        },
        DataType::List(inner) => {
            let child = new_empty_array(crate::dtype::dtype_clone(&inner));
            let offsets: Vec<i32> = crate::vecs::filled(0i32, length + 1);
            Array::List(
                crate::list::ListArray {
                    dtype: DataType::List(inner),
                    offsets,
                    child: Box::new(child),
                    offset: 0,
                    length,
                    validity: Some(Bitmap::zeroed(length)),
                },
            )
        },
        DataType::LargeList(inner) => {
            let child = new_empty_array(crate::dtype::dtype_clone(&inner));
            let offsets: Vec<i64> = crate::vecs::filled(0i64, length + 1);
            Array::LargeList(
                crate::list::ListArray {
                    dtype: DataType::LargeList(inner),
                    offsets,
                    child: Box::new(child),
                    offset: 0,
                    length,
                    validity: Some(Bitmap::zeroed(length)),
                },
            )
        },
        DataType::MapList(inner, sorted) => {
            let child = new_empty_array(crate::dtype::dtype_clone(&inner));
            let offsets: Vec<i32> = crate::vecs::filled(0i32, length + 1);
            Array::MapList(
                crate::list::ListArray {
                    dtype: DataType::MapList(inner, sorted),
                    offsets,
                    child: Box::new(child),
                    offset: 0,
                    length,
                    validity: Some(Bitmap::zeroed(length)),
                },
            )
        },
        DataType::FixedSizeList(inner, s) => {
            let child = new_null_array(crate::dtype::dtype_clone(&inner), s * length);
            Array::FixedSizeList(
                crate::fixed::FixedSizeListArray {
                    dtype: DataType::FixedSizeList(inner, s),
                    child: Box::new(child),
                    offset: 0,
                    length,
                    validity: Some(Bitmap::zeroed(length)),
                },
            )
        },
        DataType::BinaryView | DataType::Utf8View => {
            let views = crate::vecs::filled(0u128, length);
            proof {
                assert(forall|v: u128| v == 0 ==> crate::binview::view_len(v) == 0) by (bit_vector);
            }
            Array::BinView(
                crate::binview::BinViewArray {
                    dtype,
                    views,
                    data_buffers: Vec::new(),
                    offset: 0,
                    length,
                    validity: Some(Bitmap::zeroed(length)),
                },
            )
        },
        DataType::Dictionary(it, inner, ordered) => {
            let values = Box::new(new_null_array(crate::dtype::dtype_clone(&inner), 1));
            let dtype = DataType::Dictionary(it, inner, ordered);
            match it {
                crate::dtype::IntegerType::Int8 => {
                    let keys = PrimitiveArray::<i8>::new_null(
                        crate::dtype::integer_dtype(crate::dtype::IntegerType::Int8),
                        length,
                    );
                    proof {
                        crate::bitmap::lemma_count_false_all_false(keys.valids());
                    }
                    let d = crate::dictionary::DictionaryArray { dtype, keys, values };
                    let r = Array::Dictionary(crate::dictionary::AnyDictionary::S8(d));
                    proof {
                        reveal_with_fuel(Array::ok, 3);
                        reveal_with_fuel(Array::spec_export_ready, 3);
                        assert(r.ok());
                        crate::bitmap::lemma_count_false_all_false(r.valids());
                    }
                    r
                },
                crate::dtype::IntegerType::Int16 => {
                    let keys = PrimitiveArray::<i16>::new_null(
                        crate::dtype::integer_dtype(crate::dtype::IntegerType::Int16),
                        length,
                    );
                    proof {
                        crate::bitmap::lemma_count_false_all_false(keys.valids());
                    }
                    let d = crate::dictionary::DictionaryArray { dtype, keys, values };
                    let r = Array::Dictionary(crate::dictionary::AnyDictionary::S16(d));
                    proof {
                        reveal_with_fuel(Array::ok, 3);
                        reveal_with_fuel(Array::spec_export_ready, 3);
                        assert(r.ok());
                        crate::bitmap::lemma_count_false_all_false(r.valids());
                    }
                    r
                },
                crate::dtype::IntegerType::Int32 => {
                    let keys = PrimitiveArray::<i32>::new_null(
                        crate::dtype::integer_dtype(crate::dtype::IntegerType::Int32),
                        length,
                    );
                    proof {
                        crate::bitmap::lemma_count_false_all_false(keys.valids());
                    }
                    let d = crate::dictionary::DictionaryArray { dtype, keys, values };
                    let r = Array::Dictionary(crate::dictionary::AnyDictionary::S32(d));
                    proof {
                        reveal_with_fuel(Array::ok, 3);
                        reveal_with_fuel(Array::spec_export_ready, 3);
                        assert(r.ok());
                        crate::bitmap::lemma_count_false_all_false(r.valids());
                    }
                    r
                },
                crate::dtype::IntegerType::Int64 => {
                    let keys = PrimitiveArray::<i64>::new_null(
                        crate::dtype::integer_dtype(crate::dtype::IntegerType::Int64),
                        length,
                    );
                    proof {
                        crate::bitmap::lemma_count_false_all_false(keys.valids());
                    }
                    let d = crate::dictionary::DictionaryArray { dtype, keys, values };
                    let r = Array::Dictionary(crate::dictionary::AnyDictionary::S64(d));
                    proof {
                        reveal_with_fuel(Array::ok, 3);
                        reveal_with_fuel(Array::spec_export_ready, 3);
                        assert(r.ok());
                        crate::bitmap::lemma_count_false_all_false(r.valids());
                    }
                    r
                },
                crate::dtype::IntegerType::UInt8 => {
                    let keys = PrimitiveArray::<u8>::new_null(
                        crate::dtype::integer_dtype(crate::dtype::IntegerType::UInt8),
                        length,
                    );
                    proof {
                        crate::bitmap::lemma_count_false_all_false(keys.valids());
                    }
                    let d = crate::dictionary::DictionaryArray { dtype, keys, values };
                    let r = Array::Dictionary(crate::dictionary::AnyDictionary::K8(d));
                    proof {
                        reveal_with_fuel(Array::ok, 3);
                        reveal_with_fuel(Array::spec_export_ready, 3);
                        assert(r.ok());
                        crate::bitmap::lemma_count_false_all_false(r.valids());
                    }
                    r
                },
                crate::dtype::IntegerType::UInt16 => {
                    let keys = PrimitiveArray::<u16>::new_null(
                        crate::dtype::integer_dtype(crate::dtype::IntegerType::UInt16),
                        length,
                    );
                    proof {
                        crate::bitmap::lemma_count_false_all_false(keys.valids());
                    }
                    let d = crate::dictionary::DictionaryArray { dtype, keys, values };
                    let r = Array::Dictionary(crate::dictionary::AnyDictionary::K16(d));
                    proof {
                        reveal_with_fuel(Array::ok, 3);
                        reveal_with_fuel(Array::spec_export_ready, 3);
                        assert(r.ok());
                        crate::bitmap::lemma_count_false_all_false(r.valids());
                    }
                    r
                },
                crate::dtype::IntegerType::UInt32 => {
                    let keys = PrimitiveArray::<u32>::new_null(
                        crate::dtype::integer_dtype(crate::dtype::IntegerType::UInt32),
                        length,
                    );
                    proof {
                        crate::bitmap::lemma_count_false_all_false(keys.valids());
                    }
                    let d = crate::dictionary::DictionaryArray { dtype, keys, values };
                    let r = Array::Dictionary(crate::dictionary::AnyDictionary::K32(d));
                    proof {
                        reveal_with_fuel(Array::ok, 3);
                        reveal_with_fuel(Array::spec_export_ready, 3);
                        assert(r.ok());
                        crate::bitmap::lemma_count_false_all_false(r.valids());
                    }
                    r
                },
                crate::dtype::IntegerType::UInt64 => {
                    let keys = PrimitiveArray::<u64>::new_null(
                        crate::dtype::integer_dtype(crate::dtype::IntegerType::UInt64),
                        length,
                    );
                    proof {
                        crate::bitmap::lemma_count_false_all_false(keys.valids());
                    }
                    let d = crate::dictionary::DictionaryArray { dtype, keys, values };
                    let r = Array::Dictionary(crate::dictionary::AnyDictionary::K64(d));
                    proof {
                        reveal_with_fuel(Array::ok, 3);
                        reveal_with_fuel(Array::spec_export_ready, 3);
                        assert(r.ok());
                        crate::bitmap::lemma_count_false_all_false(r.valids());
                    }
                    r
                },
            }
        },
    };
    proof {
        if !(r.spec_dtype() is Null) {
            crate::bitmap::lemma_count_false_all_false(r.valids());
        } else {
            crate::bitmap::lemma_count_false_all_false(r.valids());
        }
    }
    r
}

/// One array slot read out as an owned value: the executable mirror
/// of the cell model.
#[derive(Debug, PartialEq)]
pub enum ScalarValue {
    /// A null slot.
    Null,
    /// A boolean slot.
    Boolean(bool),
    /// A slot of a signed integer type.
    Int(i64),
    /// A slot of an unsigned integer type.
    UInt(u64),
    /// A byte-string slot.
    Bytes(Vec<u8>),
    /// A list slot: the values it covers.
    Rows(Vec<ScalarValue>),
}

/// The cell that a scalar stands for.
pub open spec fn cell_of(s: ScalarValue) -> Cell
    decreases s,
{
    match s {
        ScalarValue::Null => Cell::Missing,
        ScalarValue::Boolean(b) => Cell::Flag(b),
        ScalarValue::Int(x) => Cell::Number(x as int),
        ScalarValue::UInt(x) => Cell::Number(x as int),
        ScalarValue::Bytes(v) => Cell::Chunk(v@),
        ScalarValue::Rows(v) => Cell::Rows(cells_of(v@)),
    }
}

/// The cells that a run of scalars stands for.
pub open spec fn cells_of(s: Seq<ScalarValue>) -> Seq<Cell>
    decreases s,
{
    if s.len() == 0 {
        Seq::empty()
    } else {
        cells_of(s.drop_last()).push(cell_of(s.last()))
    }
}

/// One scalar of a primitive window.
fn prim_valid<T: crate::native::Native>(pa: &PrimitiveArray<T>, i: usize) -> (r: bool)
    requires
        pa.wf(),
        i < pa.length,
    ensures
        r == pa.valids()[i as int],
{
    match &pa.validity {
        Some(v) => v.get(i),
        None => true,
    }
}

impl Array {
    /// Whether the slot at position `i` of the window is valid.
    pub fn is_valid(&self, i: usize) -> (r: bool)
        requires
            self.ok(),
            i < self.spec_len(),
        ensures
            r == self.valids()[i as int],
    {
        proof {
            reveal_with_fuel(Array::ok, 3);
        }
        match self {
        Array::Null(n) => false,
        Array::Boolean(b) => match &b.validity {
            Some(v) => v.get(i),
            None => true,
        },
        Array::Primitive(p) => match p {
            AnyPrimitive::U8(pa) => prim_valid(pa, i),
            AnyPrimitive::U16(pa) => prim_valid(pa, i),
            AnyPrimitive::U32(pa) => prim_valid(pa, i),
            AnyPrimitive::U64(pa) => prim_valid(pa, i),
            AnyPrimitive::I8(pa) => prim_valid(pa, i),
            AnyPrimitive::I16(pa) => prim_valid(pa, i),
            AnyPrimitive::I32(pa) => prim_valid(pa, i),
            AnyPrimitive::I64(pa) => prim_valid(pa, i),
        },
        Array::Binary(ba) => match &ba.validity {
            Some(v) => v.get(i),
            None => true,
        },
        Array::LargeBinary(ba) => match &ba.validity {
            Some(v) => v.get(i),
            None => true,
        },
        Array::FixedSizeBinary(fa) => match &fa.validity {
            Some(v) => v.get(i),
            None => true,
        },
        Array::List(la) => match &la.validity {
            Some(v) => v.get(i),
            None => true,
        },
        Array::LargeList(la) => match &la.validity {
            Some(v) => v.get(i),
            None => true,
        },
        Array::MapList(la) => match &la.validity {
            Some(v) => v.get(i),
            None => true,
        },
        Array::FixedSizeList(fa) => match &fa.validity {
            Some(v) => v.get(i),
            None => true,
        },
        Array::BinView(va) => match &va.validity {
            Some(v) => v.get(i),
            None => true,
        },
        Array::Dictionary(ad) => match ad {
            crate::dictionary::AnyDictionary::K8(d) => prim_valid(&d.keys, i),
            crate::dictionary::AnyDictionary::K16(d) => prim_valid(&d.keys, i),
            crate::dictionary::AnyDictionary::K32(d) => prim_valid(&d.keys, i),
            crate::dictionary::AnyDictionary::K64(d) => prim_valid(&d.keys, i),
            crate::dictionary::AnyDictionary::S8(d) => prim_valid(&d.keys, i),
            crate::dictionary::AnyDictionary::S16(d) => prim_valid(&d.keys, i),
            crate::dictionary::AnyDictionary::S32(d) => prim_valid(&d.keys, i),
            crate::dictionary::AnyDictionary::S64(d) => prim_valid(&d.keys, i),
        },
        }
    }
}

/// An array's cell run has exactly its length.
pub proof fn lemma_cells_len(a: Array)
    ensures
        a.cells().len() == a.spec_len(),
{
    reveal_with_fuel(Array::cells, 3);
}

/// Appending a scalar appends its cell.
pub proof fn lemma_cells_of_push(s: Seq<ScalarValue>, x: ScalarValue)
    ensures
        cells_of(s.push(x)) == cells_of(s).push(cell_of(x)),
{
    assert(s.push(x).drop_last() == s);
    assert(s.push(x).last() == x);
}

/// Reads the value at position `i` of the window: a null slot reads
/// as null, a dictionary slot resolves through the value pool.
#[verifier::rlimit(100)]
pub fn value_at(a: &Array, i: usize) -> (r: ScalarValue)
    requires
        a.ok(),
        i < a.spec_len(),
    ensures
        cell_of(r) =~~= a.cells()[i as int],
    decreases *a,
{
    proof {
        reveal_with_fuel(Array::ok, 3);
        reveal_with_fuel(Array::cells, 3);
    }
    if !a.is_valid(i) {
        return ScalarValue::Null;
    }
    match a {
        Array::Null(_) => ScalarValue::Null,
        Array::Boolean(b) => ScalarValue::Boolean(b.values.get(i)),
        Array::Primitive(p) => match p {
            AnyPrimitive::U8(pa) => ScalarValue::UInt(pa.value(i) as u64),
            AnyPrimitive::U16(pa) => ScalarValue::UInt(pa.value(i) as u64),
            AnyPrimitive::U32(pa) => ScalarValue::UInt(pa.value(i) as u64),
            AnyPrimitive::U64(pa) => ScalarValue::UInt(pa.value(i) as u64),
            AnyPrimitive::I8(pa) => ScalarValue::Int(pa.value(i) as i64),
            AnyPrimitive::I16(pa) => ScalarValue::Int(pa.value(i) as i64),
            AnyPrimitive::I32(pa) => ScalarValue::Int(pa.value(i) as i64),
            AnyPrimitive::I64(pa) => ScalarValue::Int(pa.value(i) as i64),
        },
        Array::Binary(ba) => ScalarValue::Bytes(ba.value(i)),
        Array::LargeBinary(ba) => ScalarValue::Bytes(ba.value(i)),
        Array::FixedSizeBinary(fa) => {
            let size = match &fa.dtype {
                DataType::FixedSizeBinary(s) => *s,
                _ => 0,
            };
            proof {
                crate::vecs::lemma_vec_len_bound(&fa.data);
                assert(size * (fa.offset + i) + size == size * (fa.offset + i + 1)
                    && size * (fa.offset + i + 1) <= size * (fa.offset + fa.length))
                    by (nonlinear_arith)
                    requires
                        0 <= i < fa.length,
                        size >= 0,
                        0 <= fa.offset,
                ;
            }
            let bytes = crate::vecs::copy_range(&fa.data, size * (fa.offset + i), size);
            proof {
                assert(bytes@ =~= fa.bytes_at(i as int));
            }
            ScalarValue::Bytes(bytes)
        },
        Array::List(la) => {
            proof {
                crate::varbin::lemma_offsets_mono(
                    la.offsets@,
                    la.offset + i,
                    la.offsets@.len() - 1,
                );
                crate::varbin::lemma_offsets_mono(
                    la.offsets@,
                    la.offset + i + 1,
                    la.offsets@.len() - 1,
                );
                crate::varbin::lemma_offsets_mono(la.offsets@, la.offset + i, la.offset + i + 1);
                crate::vecs::lemma_vec_len_bound(&la.offsets);
            }
            let lo = la.offsets[la.offset + i].to_index();
            let hi = la.offsets[la.offset + i + 1].to_index();
            let mut out: Vec<ScalarValue> = Vec::new();
            let mut j: usize = lo;
            while j < hi
                invariant
                    a.ok(),
                    a == Array::List(*la),
                    la.wf(),
                    la.child.ok(),
                    lo <= j <= hi,
                    hi <= la.child.spec_len(),
                    cells_of(out@) =~~= la.child.cells().subrange(lo as int, j as int),
                decreases hi - j,
            {
                let v = value_at(&la.child, j);
                proof {
                    lemma_cells_len(*la.child);
                    lemma_cells_of_push(out@, v);
                    assert(la.child.cells().subrange(lo as int, j + 1)
                        =~= la.child.cells().subrange(lo as int, j as int).push(
                        la.child.cells()[j as int],
                    ));
                }
                out.push(v);
                j = j + 1;
            }
            proof {
                assert(cells_of(out@) =~~= la.child.cells().subrange(la.bound(i as int), la.bound(
                    i as int + 1,
                )));
            }
            ScalarValue::Rows(out)
        },
        Array::LargeList(la) => {
            proof {
                crate::varbin::lemma_offsets_mono(
                    la.offsets@,
                    la.offset + i,
                    la.offsets@.len() - 1,
                );
                crate::varbin::lemma_offsets_mono(
                    la.offsets@,
                    la.offset + i + 1,
                    la.offsets@.len() - 1,
                );
                crate::varbin::lemma_offsets_mono(la.offsets@, la.offset + i, la.offset + i + 1);
                crate::vecs::lemma_vec_len_bound(&la.offsets);
            }
            let lo = la.offsets[la.offset + i].to_index();
            let hi = la.offsets[la.offset + i + 1].to_index();
            let mut out: Vec<ScalarValue> = Vec::new();
            let mut j: usize = lo;
            while j < hi
                invariant
                    a.ok(),
                    a == Array::LargeList(*la),
                    la.wf(),
                    la.child.ok(),
                    lo <= j <= hi,
                    hi <= la.child.spec_len(),
                    cells_of(out@) =~~= la.child.cells().subrange(lo as int, j as int),
                decreases hi - j,
            {
                let v = value_at(&la.child, j);
                proof {
                    lemma_cells_len(*la.child);
                    lemma_cells_of_push(out@, v);
                    assert(la.child.cells().subrange(lo as int, j + 1)
                        =~= la.child.cells().subrange(lo as int, j as int).push(
                        la.child.cells()[j as int],
                    ));
                }
                out.push(v);
                j = j + 1;
            }
            proof {
                assert(cells_of(out@) =~~= la.child.cells().subrange(la.bound(i as int), la.bound(
                    i as int + 1,
                )));
            }
            ScalarValue::Rows(out)
        },
        Array::MapList(la) => {
            proof {
                crate::varbin::lemma_offsets_mono(
                    la.offsets@,
                    la.offset + i,
                    la.offsets@.len() - 1,
                );
                crate::varbin::lemma_offsets_mono(
                    la.offsets@,
                    la.offset + i + 1,
                    la.offsets@.len() - 1,
                );
                crate::varbin::lemma_offsets_mono(la.offsets@, la.offset + i, la.offset + i + 1);
                crate::vecs::lemma_vec_len_bound(&la.offsets);
            }
            let lo = la.offsets[la.offset + i].to_index();
            let hi = la.offsets[la.offset + i + 1].to_index();
            let mut out: Vec<ScalarValue> = Vec::new();
            let mut j: usize = lo;
            while j < hi
                invariant
                    a.ok(),
                    a == Array::MapList(*la),
                    la.wf(),
                    la.child.ok(),
                    lo <= j <= hi,
                    hi <= la.child.spec_len(),
                    cells_of(out@) =~~= la.child.cells().subrange(lo as int, j as int),
                decreases hi - j,
            {
                let v = value_at(&la.child, j);
                proof {
                    lemma_cells_len(*la.child);
                    lemma_cells_of_push(out@, v);
                    assert(la.child.cells().subrange(lo as int, j + 1)
                        =~= la.child.cells().subrange(lo as int, j as int).push(
                        la.child.cells()[j as int],
                    ));
                }
                out.push(v);
                j = j + 1;
            }
            proof {
                assert(cells_of(out@) =~~= la.child.cells().subrange(la.bound(i as int), la.bound(
                    i as int + 1,
                )));
            }
            ScalarValue::Rows(out)
        },
        Array::FixedSizeList(fa) => {
            let size = match &fa.dtype {
                DataType::FixedSizeList(_, s) => *s,
                _ => 0,
            };
            proof {
                assert(size * (fa.offset + i) + size == size * (fa.offset + i + 1)
                    && size * (fa.offset + i + 1) <= size * (fa.offset + fa.length))
                    by (nonlinear_arith)
                    requires
                        0 <= i < fa.length,
                        size >= 0,
                        0 <= fa.offset,
                ;
            }
            let lo = size * (fa.offset + i);
            let hi = lo + size;
            let mut out: Vec<ScalarValue> = Vec::new();
            let mut j: usize = lo;
            while j < hi
                invariant
                    a.ok(),
                    a == Array::FixedSizeList(*fa),
                    fa.wf(),
                    fa.child.ok(),
                    lo <= j <= hi,
                    hi <= fa.child.spec_len(),
                    cells_of(out@) =~~= fa.child.cells().subrange(lo as int, j as int),
                decreases hi - j,
            {
                let v = value_at(&fa.child, j);
                proof {
                    lemma_cells_len(*fa.child);
                    lemma_cells_of_push(out@, v);
                    assert(fa.child.cells().subrange(lo as int, j + 1)
                        =~= fa.child.cells().subrange(lo as int, j as int).push(
                        fa.child.cells()[j as int],
                    ));
                }
                out.push(v);
                j = j + 1;
            }
            ScalarValue::Rows(out)
        },
        Array::BinView(va) => {
            let v = va.views[va.offset + i];
            proof {
                assert((v & 0xFFFF_FFFF) <= 0xFFFF_FFFF) by (bit_vector);
                assert(((v >> 64u128) & 0xFFFF_FFFF) <= 0xFFFF_FFFF) by (bit_vector);
                assert(((v >> 96u128) & 0xFFFF_FFFF) <= 0xFFFF_FFFF) by (bit_vector);
            }
            let len = (v & 0xFFFF_FFFF) as u32;
            if len <= 12 {
                let mut bytes: Vec<u8> = Vec::new();
                let mut j: usize = 0;
                while j < len as usize
                    invariant
                        len <= 12,
                        j <= len as usize,
                        bytes@.len() == j,
                        forall|k: int|
                            0 <= k < j ==> bytes@[k] == crate::binview::view_inline_byte(v, k),
                    decreases len as usize - j,
                {
                    let byte = ((v >> ((32 + 8 * j) as u128)) & 0xFF) as u8;
                    bytes.push(byte);
                    j = j + 1;
                }
                proof {
                    assert(bytes@ =~= crate::binview::view_bytes(v, va.bufs()));
                }
                ScalarValue::Bytes(bytes)
            } else {
                proof {
                    assert(crate::binview::view_ok(v, va.bufs()));
                }
                let idx = (((v >> 64u128) & 0xFFFF_FFFF) as u32) as usize;
                let off = (((v >> 96u128) & 0xFFFF_FFFF) as u32) as usize;
                let bytes = crate::vecs::copy_range(&va.data_buffers[idx], off, len as usize);
                proof {
                    assert(bytes@ =~= crate::binview::view_bytes(v, va.bufs()));
                }
                ScalarValue::Bytes(bytes)
            }
        },
        Array::Dictionary(ad) => match ad {
            crate::dictionary::AnyDictionary::K8(d) => {
                proof {
                    if d.all_null() {
                        crate::bitmap::lemma_count_false_full(d.keys.valids());
                        assert(false);
                    }
                }
                let key = d.keys.value(i).as_usize();
                value_at(&d.values, key)
            },
            crate::dictionary::AnyDictionary::K16(d) => {
                proof {
                    if d.all_null() {
                        crate::bitmap::lemma_count_false_full(d.keys.valids());
                        assert(false);
                    }
                }
                let key = d.keys.value(i).as_usize();
                value_at(&d.values, key)
            },
            crate::dictionary::AnyDictionary::K32(d) => {
                proof {
                    if d.all_null() {
                        crate::bitmap::lemma_count_false_full(d.keys.valids());
                        assert(false);
                    }
                }
                let key = d.keys.value(i).as_usize();
                value_at(&d.values, key)
            },
            crate::dictionary::AnyDictionary::K64(d) => {
                proof {
                    if d.all_null() {
                        crate::bitmap::lemma_count_false_full(d.keys.valids());
                        assert(false);
                    }
                }
                let key = d.keys.value(i).as_usize();
                value_at(&d.values, key)
            },
            crate::dictionary::AnyDictionary::S8(d) => {
                proof {
                    if d.all_null() {
                        crate::bitmap::lemma_count_false_full(d.keys.valids());
                        assert(false);
                    }
                }
                let key = d.keys.value(i).as_usize();
                value_at(&d.values, key)
            },
            crate::dictionary::AnyDictionary::S16(d) => {
                proof {
                    if d.all_null() {
                        crate::bitmap::lemma_count_false_full(d.keys.valids());
                        assert(false);
                    }
                }
                let key = d.keys.value(i).as_usize();
                value_at(&d.values, key)
            },
            crate::dictionary::AnyDictionary::S32(d) => {
                proof {
                    if d.all_null() {
                        crate::bitmap::lemma_count_false_full(d.keys.valids());
                        assert(false);
                    }
                }
                let key = d.keys.value(i).as_usize();
                value_at(&d.values, key)
            },
            crate::dictionary::AnyDictionary::S64(d) => {
                proof {
                    if d.all_null() {
                        crate::bitmap::lemma_count_false_full(d.keys.valids());
                        assert(false);
                    }
                }
                let key = d.keys.value(i).as_usize();
                value_at(&d.values, key)
            },
        },
    }
}
} // verus!
