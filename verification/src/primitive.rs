//! Primitive arrays: a run of fixed-width integer elements viewed
//! through an element window, with an optional validity bitmap.

use vstd::prelude::*;

use crate::bitmap::{count_false, Bitmap};
use crate::dtype::{DataType, PhysicalType};
use crate::native::Native;
use crate::vecs::filled;

verus! {

/// A primitive array: elements `offset .. offset + length` of a typed
/// buffer, plus an optional validity bitmap of the same logical
/// length.
#[derive(Debug)]
pub struct PrimitiveArray<T: Native> {
    pub dtype: DataType,
    pub values: Vec<T>,
    pub offset: usize,
    pub length: usize,
    pub validity: Option<Bitmap>,
}

impl<T: Native> PrimitiveArray<T> {
    /// Well-formedness: the window lies in the buffer, the descriptor
    /// matches the element type, and the validity (if any) covers
    /// exactly the window.
    pub open spec fn wf(&self) -> bool {
        &&& self.dtype.physical() == PhysicalType::Primitive(T::tag())
        &&& self.offset + self.length <= self.values@.len()
        &&& self.offset + self.length <= usize::MAX
        &&& self.offset + self.length <= i64::MAX
        &&& match self.validity {
            Some(v) => v.wf() && v.length == self.length,
            None => true,
        }
    }

    /// Ready for export: the validity window starts where the value
    /// window starts, so one struct-level offset describes both.
    pub open spec fn export_ready(&self) -> bool {
        match self.validity {
            Some(v) => v.offset == self.offset,
            None => true,
        }
    }

    /// The elements of the window, as mathematical integers.
    pub open spec fn ints(&self) -> Seq<int> {
        Seq::new(self.length as nat, |i: int| self.values@[self.offset + i].as_int())
    }

    /// The validity of the window: absent bitmap means all valid.
    pub open spec fn valids(&self) -> Seq<bool> {
        match self.validity {
            Some(v) => v.view(),
            None => Seq::new(self.length as nat, |i: int| true),
        }
    }

    /// The number of null elements.
    pub open spec fn spec_null_count(&self) -> nat {
        count_false(self.valids())
    }

    /// A new array over a whole buffer.
    pub fn new(dtype: DataType, values: Vec<T>, validity: Option<Bitmap>) -> (r: Self)
        requires
            dtype.physical() == PhysicalType::Primitive(T::tag()),
            values@.len() <= i64::MAX,
            match validity {
                Some(v) => v.wf() && v.length == values@.len() && v.offset == 0,
                None => true,
            },
        ensures
            r.wf(),
            r.export_ready(),
            r.dtype == dtype,
            r.offset == 0,
            r.length == values@.len(),
            r.ints() == Seq::new(values@.len(), |i: int| values@[i].as_int()),
            r.valids() == match validity {
                Some(v) => v.view(),
                None => Seq::new(values@.len(), |i: int| true),
            },
    {
        let length = values.len();
        let r = PrimitiveArray { dtype, values, offset: 0, length, validity };
        proof {
            assert(r.ints() =~= Seq::new(r.length as nat, |i: int| r.values@[i].as_int()));
        }
        r
    }

    /// An empty array.
    pub fn new_empty(dtype: DataType) -> (r: Self)
        requires
            dtype.physical() == PhysicalType::Primitive(T::tag()),
        ensures
            r.wf(),
            r.export_ready(),
            r.dtype == dtype,
            r.length == 0,
    {
        PrimitiveArray { dtype, values: Vec::new(), offset: 0, length: 0, validity: None }
    }

    /// An array of `length` null elements.
    pub fn new_null(dtype: DataType, length: usize) -> (r: Self)
        requires
            dtype.physical() == PhysicalType::Primitive(T::tag()),
            length <= i64::MAX,
        ensures
            r.wf(),
            r.export_ready(),
            r.dtype == dtype,
            r.length == length,
            forall|i: int| 0 <= i < length ==> !r.valids()[i],
            forall|i: int| 0 <= i < length ==> r.ints()[i] == 0,
    {
        let values = filled(T::zero(), length);
        let validity = Bitmap::zeroed(length);
        PrimitiveArray { dtype, values, offset: 0, length, validity: Some(validity) }
    }

    /// The number of elements of the window.
    pub fn len(&self) -> (r: usize)
        ensures
            r == self.length,
    {
        self.length
    }

    /// The element at position `i` of the window.
    pub fn value(&self, i: usize) -> (r: T)
        requires
            self.wf(),
            i < self.length,
        ensures
            r.as_int() == self.ints()[i as int],
    {
        self.values[self.offset + i]
    }

    /// The validity bitmap, if any.
    pub fn validity(&self) -> (r: &Option<Bitmap>)
        ensures
            r == self.validity,
    {
        &self.validity
    }

    /// The number of null elements, counted from the bitmap.
    pub fn null_count(&self) -> (r: usize)
        requires
            self.wf(),
        ensures
            r == self.spec_null_count(),
            r <= self.length,
    {
        match &self.validity {
            Some(v) => v.unset_bits(),
            None => {
                proof {
                    crate::bitmap::lemma_count_false_all_true(self.valids());
                }
                0
            },
        }
    }

    /// Narrows the window to `offset .. offset + length` of it.
    pub fn slice(&mut self, offset: usize, length: usize)
        requires
            old(self).wf(),
            offset + length <= old(self).length,
        ensures
            final(self).wf(),
            final(self).dtype == old(self).dtype,
            final(self).length == length,
            final(self).offset == old(self).offset + offset,
            final(self).ints() == old(self).ints().subrange(offset as int, offset + length),
            final(self).valids() == old(self).valids().subrange(offset as int, offset + length),
            old(self).export_ready() ==> final(self).export_ready(),
    {
        let validity = match &self.validity {
            Some(v) => Some(v.sliced(offset, length)),
            None => None,
        };
        self.validity = validity;
        self.offset = self.offset + offset;
        self.length = length;
        proof {
            assert(self.ints() =~= old(self).ints().subrange(offset as int, offset + length));
            assert(self.valids() =~= old(self).valids().subrange(
                offset as int,
                offset + length,
            ));
        }
    }

    /// Replaces the validity of this array. The new bitmap may use
    /// any window position; the array is ready for export afterwards
    /// only if that window starts at the value window's offset.
    pub fn set_validity(&mut self, validity: Option<Bitmap>)
        requires
            old(self).wf(),
            match validity {
                Some(v) => v.wf() && v.length == old(self).length,
                None => true,
            },
        ensures
            final(self).wf(),
            (match validity {
                Some(v) => v.offset == old(self).offset,
                None => true,
            }) ==> final(self).export_ready(),
            final(self).dtype == old(self).dtype,
            final(self).offset == old(self).offset,
            final(self).length == old(self).length,
            final(self).ints() == old(self).ints(),
            final(self).validity == validity,
    {
        self.validity = validity;
        proof {
            assert(self.ints() =~= old(self).ints());
        }
    }

    /// A copy of this array whose window is `offset .. offset + length`
    /// of the current window.
    pub fn sliced(&self, offset: usize, length: usize) -> (r: Self)
        requires
            self.wf(),
            offset + length <= self.length,
        ensures
            r.wf(),
            r.dtype == self.dtype,
            r.length == length,
            r.ints() == self.ints().subrange(offset as int, offset + length),
            r.valids() == self.valids().subrange(offset as int, offset + length),
            self.export_ready() ==> r.export_ready(),
    {
        let mut r = self.clone_array();
        r.slice(offset, length);
        r
    }

    /// A deep copy of this array.
    pub fn clone_array(&self) -> (r: Self)
        ensures
            r.dtype == self.dtype,
            r.values@ == self.values@,
            r.offset == self.offset,
            r.length == self.length,
            r.wf() == self.wf(),
            r.ints() == self.ints(),
            r.valids() == self.valids(),
            r.export_ready() == self.export_ready(),
            r.validity is Some <==> self.validity is Some,
    {
        let validity = match &self.validity {
            Some(v) => Some(crate::bitmap::bitmap_clone(v)),
            None => None,
        };
        let r = PrimitiveArray {
            dtype: crate::dtype::dtype_clone(&self.dtype),
            values: crate::vecs::copy_all(&self.values),
            offset: self.offset,
            length: self.length,
            validity,
        };
        proof {
            assert(r.ints() =~= self.ints());
            assert(r.valids() =~= self.valids());
        }
        r
    }
}

} // verus!
