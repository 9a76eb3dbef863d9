//! List arrays: an offsets buffer delimits, for each element of the
//! window, a run of elements of one child array.

use vstd::prelude::*;

use crate::array::Array;
use crate::bitmap::{count_false, Bitmap};
use crate::dtype::{DataType, PhysicalType};
use crate::native::Native;
use crate::varbin::{offsets_wf, Offset};

verus! {

/// A list array: element `i` of the window covers the child elements
/// `offsets[offset + i] .. offsets[offset + i + 1]`.
#[derive(Debug)]
pub struct ListArray<O: Offset> {
    pub dtype: DataType,
    pub offsets: Vec<O>,
    pub child: Box<Array>,
    pub offset: usize,
    pub length: usize,
    pub validity: Option<Bitmap>,
}

impl<O: Offset> ListArray<O> {
    /// The element type that the descriptor declares for the child.
    pub open spec fn inner_dtype(&self) -> Option<DataType> {
        crate::dtype::spec_get_child(self.dtype)
    }

    /// Well-formedness of this node: the descriptor is a list type of
    /// the right offset width and declares the child's type, the
    /// window (one extra entry) lies in the offsets buffer, the
    /// offsets are a valid geometry over the child's length, and the
    /// validity (if any) covers exactly the window. The child's own
    /// well-formedness is stated by the array tree.
    pub open spec fn wf(&self) -> bool {
        &&& O::list_phys(self.dtype.physical())
        &&& self.inner_dtype() == Some(self.child.spec_dtype())
        &&& self.offset + self.length + 1 <= self.offsets@.len()
        &&& self.offset + self.length + 1 <= usize::MAX
        &&& self.offset + self.length <= i64::MAX
        &&& offsets_wf(self.offsets@, self.child.spec_len() as int)
        &&& match self.validity {
            Some(v) => v.wf() && v.length == self.length,
            None => true,
        }
    }

    /// Ready for export: the validity window starts where the offsets
    /// window starts.
    pub open spec fn export_ready(&self) -> bool {
        match self.validity {
            Some(v) => v.offset == self.offset,
            None => true,
        }
    }

    /// The offset value delimiting element `i` of the window.
    pub open spec fn bound(&self, i: int) -> int {
        self.offsets@[self.offset + i].as_int()
    }

    /// The validity of the window: absent bitmap means all valid.
    pub open spec fn valids(&self) -> Seq<bool> {
        match self.validity {
            Some(v) => v.view(),
            None => Seq::new(self.length as nat, |i: int| true),
        }
    }

    /// The number of null elements.
    pub open spec fn spec_null_count(&self) -> nat {
        count_false(self.valids())
    }

    /// The number of elements of the window.
    pub fn len(&self) -> (r: usize)
        ensures
            r == self.length,
    {
        self.length
    }
}

} // verus!
