//! Fixed-width layouts: byte strings of one declared width inside a
//! single data buffer, and lists of one declared width over a child
//! array. Neither has an offsets buffer; positions are scaled by the
//! width.

use vstd::prelude::*;

use crate::array::Array;
use crate::bitmap::{count_false, Bitmap};
use crate::dtype::DataType;

verus! {

/// A fixed-size binary array: element `i` of the window is the byte
/// run `size * (offset + i) .. size * (offset + i + 1)` of the data
/// buffer.
#[derive(Debug)]
pub struct FixedSizeBinaryArray {
    pub dtype: DataType,
    pub data: Vec<u8>,
    pub offset: usize,
    pub length: usize,
    pub validity: Option<Bitmap>,
}

impl FixedSizeBinaryArray {
    /// The declared element width.
    pub open spec fn size(&self) -> int {
        match self.dtype {
            DataType::FixedSizeBinary(s) => s as int,
            _ => 0,
        }
    }

    /// Well-formedness: the descriptor is a fixed-size binary type,
    /// the scaled window lies in the data buffer, and the validity
    /// (if any) covers exactly the window.
    pub open spec fn wf(&self) -> bool {
        &&& self.dtype is FixedSizeBinary
        &&& self.dtype.wf()
        &&& self.size() * (self.offset + self.length) <= self.data@.len()
        &&& self.offset + self.length <= i64::MAX
        &&& self.offset + self.length <= usize::MAX
        &&& self.size() * (self.offset + self.length) <= i64::MAX
        &&& match self.validity {
            Some(v) => v.wf() && v.length == self.length,
            None => true,
        }
    }

    /// Ready for export: the validity window starts at the window's
    /// logical offset.
    pub open spec fn export_ready(&self) -> bool {
        match self.validity {
            Some(v) => v.offset == self.offset,
            None => true,
        }
    }

    /// The bytes of element `i` of the window.
    pub open spec fn bytes_at(&self, i: int) -> Seq<u8> {
        self.data@.subrange(
            self.size() * (self.offset + i),
            self.size() * (self.offset + i + 1),
        )
    }

    /// The elements of the window.
    pub open spec fn strings(&self) -> Seq<Seq<u8>> {
        Seq::new(self.length as nat, |i: int| self.bytes_at(i))
    }

    /// The validity of the window: absent bitmap means all valid.
    pub open spec fn valids(&self) -> Seq<bool> {
        match self.validity {
            Some(v) => v.view(),
            None => Seq::new(self.length as nat, |i: int| true),
        }
    }

    /// The number of null elements.
    pub open spec fn spec_null_count(&self) -> nat {
        count_false(self.valids())
    }

    /// The number of elements of the window.
    pub fn len(&self) -> (r: usize)
        ensures
            r == self.length,
    {
        self.length
    }
}

/// A fixed-size list array: element `i` of the window covers the
/// child elements `size * (offset + i) .. size * (offset + i + 1)`.
#[derive(Debug)]
pub struct FixedSizeListArray {
    pub dtype: DataType,
    pub child: Box<Array>,
    pub offset: usize,
    pub length: usize,
    pub validity: Option<Bitmap>,
}

impl FixedSizeListArray {
    /// The declared element width.
    pub open spec fn size(&self) -> int {
        match self.dtype {
            DataType::FixedSizeList(_, s) => s as int,
            _ => 0,
        }
    }

    /// The element type that the descriptor declares for the child.
    pub open spec fn inner_dtype(&self) -> Option<DataType> {
        crate::dtype::spec_get_child(self.dtype)
    }

    /// Well-formedness of this node: the descriptor is a fixed-size
    /// list type declaring the child's type, and the scaled window
    /// lies in the child. The child's own well-formedness is stated
    /// by the array tree.
    pub open spec fn wf(&self) -> bool {
        &&& self.dtype is FixedSizeList
        &&& match self.dtype {
            DataType::FixedSizeList(_, s) => s <= i64::MAX,
            _ => false,
        }
        &&& self.inner_dtype() == Some(self.child.spec_dtype())
        &&& self.size() * (self.offset + self.length) <= self.child.spec_len()
        &&& self.offset + self.length <= i64::MAX
        &&& self.offset + self.length <= usize::MAX
        &&& self.size() * (self.offset + self.length) <= i64::MAX
        &&& match self.validity {
            Some(v) => v.wf() && v.length == self.length,
            None => true,
        }
    }

    /// Ready for export: the validity window starts at the window's
    /// logical offset.
    pub open spec fn export_ready(&self) -> bool {
        match self.validity {
            Some(v) => v.offset == self.offset,
            None => true,
        }
    }

    /// The validity of the window: absent bitmap means all valid.
    pub open spec fn valids(&self) -> Seq<bool> {
        match self.validity {
            Some(v) => v.view(),
            None => Seq::new(self.length as nat, |i: int| true),
        }
    }

    /// The number of null elements.
    pub open spec fn spec_null_count(&self) -> nat {
        count_false(self.valids())
    }

    /// The number of elements of the window.
    pub fn len(&self) -> (r: usize)
        ensures
            r == self.length,
    {
        self.length
    }
}

} // verus!
