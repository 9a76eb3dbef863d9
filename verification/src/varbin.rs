//! Variable-length byte-string arrays: an offsets buffer of `n + 1`
//! non-decreasing entries delimits `n` elements inside one data
//! buffer. The same offsets geometry serves the list arrays.

use vstd::prelude::*;

use crate::bitmap::{count_false, Bitmap};
use crate::dtype::{DataType, PhysicalType};
use crate::native::Native;

verus! {

/// An offset element type: the 32-bit or the 64-bit flavour.
pub trait Offset: Native {
    /// Whether this is the 64-bit flavour.
    spec fn large() -> bool;

    /// Whether `p` is a variable-length byte-string layout with this
    /// offset width.
    open spec fn binary_phys(p: PhysicalType) -> bool {
        if Self::large() {
            p == PhysicalType::LargeUtf8 || p == PhysicalType::LargeBinary
        } else {
            p == PhysicalType::Utf8 || p == PhysicalType::Binary
        }
    }

    /// Whether `p` is a list layout with this offset width. The map
    /// layout shares the 32-bit list geometry.
    open spec fn list_phys(p: PhysicalType) -> bool {
        if Self::large() {
            p == PhysicalType::LargeList
        } else {
            p == PhysicalType::List || p == PhysicalType::MapList
        }
    }

    /// The value as a machine index.
    fn to_index(self) -> (r: usize)
        requires
            0 <= self.as_int() <= usize::MAX,
        ensures
            r == self.as_int(),
    ;

    /// The offset holding a small machine index.
    fn from_index(x: usize) -> (r: Self)
        requires
            x <= i32::MAX,
        ensures
            r.as_int() == x,
    ;

    /// Whether the value is negative.
    fn is_neg(self) -> (r: bool)
        ensures
            r == (self.as_int() < 0),
    ;

    /// Whether the value is at most `other`'s.
    fn le(self, other: Self) -> (r: bool)
        ensures
            r == (self.as_int() <= other.as_int()),
    ;

    /// Whether the value is at most the machine index `x`.
    fn le_index(self, x: usize) -> (r: bool)
        ensures
            r == (self.as_int() <= x),
    ;
}

impl Offset for i32 {
    open spec fn large() -> bool {
        false
    }

    fn to_index(self) -> (r: usize) {
        self as usize
    }

    fn from_index(x: usize) -> (r: Self) {
        x as i32
    }

    fn is_neg(self) -> (r: bool) {
        self < 0
    }

    fn le(self, other: Self) -> (r: bool) {
        self <= other
    }

    fn le_index(self, x: usize) -> (r: bool) {
        if self < 0 {
            true
        } else {
            (self as u128) <= (x as u128)
        }
    }
}

impl Offset for i64 {
    open spec fn large() -> bool {
        true
    }

    fn to_index(self) -> (r: usize) {
        self as usize
    }

    fn from_index(x: usize) -> (r: Self) {
        x as i64
    }

    fn is_neg(self) -> (r: bool) {
        self < 0
    }

    fn le(self, other: Self) -> (r: bool) {
        self <= other
    }

    fn le_index(self, x: usize) -> (r: bool) {
        if self < 0 {
            true
        } else {
            (self as u128) <= (x as u128)
        }
    }
}

/// All entries are non-negative.
pub open spec fn offsets_nonneg<O: Offset>(s: Seq<O>) -> bool {
    forall|i: int| 0 <= i < s.len() ==> (#[trigger] s[i].as_int()) >= 0
}

/// Adjacent entries never decrease.
pub open spec fn offsets_mono<O: Offset>(s: Seq<O>) -> bool {
    forall|i: int| 0 <= i < s.len() - 1 ==> (#[trigger] s[i].as_int()) <= s[i + 1].as_int()
}

/// A well-formed offsets buffer over data of length `limit`.
pub open spec fn offsets_wf<O: Offset>(s: Seq<O>, limit: int) -> bool {
    s.len() >= 1 && offsets_nonneg(s) && offsets_mono(s) && s.last().as_int() <= limit
}

/// Non-decreasing adjacent entries give a non-decreasing sequence.
pub proof fn lemma_offsets_mono<O: Offset>(s: Seq<O>, a: int, b: int)
    requires
        offsets_mono(s),
        0 <= a <= b < s.len(),
    ensures
        s[a].as_int() <= s[b].as_int(),
    decreases b - a,
{
    if a < b {
        lemma_offsets_mono(s, a, b - 1);
    }
}

/// Scans an offsets buffer: at least one entry, all entries
/// non-negative and non-decreasing, and the last at most `limit`.
pub fn check_offsets<O: Offset>(offsets: &Vec<O>, limit: usize) -> (r: bool)
    ensures
        r <==> offsets_wf(offsets@, limit as int),
{
    let n = offsets.len();
    if n == 0 {
        return false;
    }
    let mut i: usize = 0;
    while i + 1 < n
        invariant
            1 <= n == offsets@.len(),
            i <= n - 1,
            forall|j: int| 0 <= j < i ==> (#[trigger] offsets@[j].as_int()) >= 0,
            forall|j: int|
                0 <= j < i ==> (#[trigger] offsets@[j].as_int()) <= offsets@[j + 1].as_int(),
        decreases n - i,
    {
        if offsets[i].is_neg() {
            return false;
        }
        if !offsets[i].le(offsets[i + 1]) {
            return false;
        }
        i = i + 1;
    }
    if offsets[n - 1].is_neg() {
        return false;
    }
    if !offsets[n - 1].le_index(limit) {
        return false;
    }
    true
}

/// Scans entries `0 .. end` of an offsets buffer: all non-negative,
/// adjacent ones non-decreasing.
pub fn check_offsets_range<O: Offset>(offsets: &Vec<O>, end: usize) -> (r: bool)
    requires
        1 <= end <= offsets@.len(),
    ensures
        r <==> (forall|i: int| 0 <= i < end ==> (#[trigger] offsets@[i].as_int()) >= 0) && (
        forall|i: int|
            0 <= i < end - 1 ==> (#[trigger] offsets@[i].as_int()) <= offsets@[i + 1].as_int()),
{
    let mut i: usize = 0;
    while i < end
        invariant
            1 <= end <= offsets@.len(),
            i <= end,
            forall|j: int| 0 <= j < i ==> (#[trigger] offsets@[j].as_int()) >= 0,
            forall|j: int|
                0 <= j < i && j + 1 < end ==> (#[trigger] offsets@[j].as_int()) <= offsets@[j
                    + 1].as_int(),
        decreases end - i,
    {
        if offsets[i].is_neg() {
            return false;
        }
        if i + 1 < end {
            if !offsets[i].le(offsets[i + 1]) {
                return false;
            }
        }
        i = i + 1;
    }
    true
}

/// A variable-length byte-string array: element `i` of the window is
/// the byte run `offsets[offset + i] .. offsets[offset + i + 1]` of
/// the data buffer, which is always zero-based.
#[derive(Debug)]
pub struct BinaryArray<O: Offset> {
    pub dtype: DataType,
    pub offsets: Vec<O>,
    pub data: Vec<u8>,
    pub offset: usize,
    pub length: usize,
    pub validity: Option<Bitmap>,
}

impl<O: Offset> BinaryArray<O> {
    /// Well-formedness: the descriptor matches the offset width, the
    /// window (one extra entry) lies in the offsets buffer, the
    /// offsets are a valid geometry over the data buffer, and the
    /// validity (if any) covers exactly the window.
    pub open spec fn wf(&self) -> bool {
        &&& O::binary_phys(self.dtype.physical())
        &&& self.offset + self.length + 1 <= self.offsets@.len()
        &&& self.offset + self.length + 1 <= usize::MAX
        &&& self.offset + self.length <= i64::MAX
        &&& offsets_wf(self.offsets@, self.data@.len() as int)
        &&& match self.validity {
            Some(v) => v.wf() && v.length == self.length,
            None => true,
        }
    }

    /// Ready for export: the validity window starts where the offsets
    /// window starts.
    pub open spec fn export_ready(&self) -> bool {
        match self.validity {
            Some(v) => v.offset == self.offset,
            None => true,
        }
    }

    /// The offset value delimiting element `i` of the window.
    pub open spec fn bound(&self, i: int) -> int {
        self.offsets@[self.offset + i].as_int()
    }

    /// The bytes of element `i` of the window.
    pub open spec fn bytes_at(&self, i: int) -> Seq<u8> {
        self.data@.subrange(self.bound(i), self.bound(i + 1))
    }

    /// The elements of the window.
    pub open spec fn strings(&self) -> Seq<Seq<u8>> {
        Seq::new(self.length as nat, |i: int| self.bytes_at(i))
    }

    /// The validity of the window: absent bitmap means all valid.
    pub open spec fn valids(&self) -> Seq<bool> {
        match self.validity {
            Some(v) => v.view(),
            None => Seq::new(self.length as nat, |i: int| true),
        }
    }

    /// The number of null elements.
    pub open spec fn spec_null_count(&self) -> nat {
        count_false(self.valids())
    }

    /// A new array over whole buffers.
    pub fn new(dtype: DataType, offsets: Vec<O>, data: Vec<u8>, validity: Option<Bitmap>) -> (r:
        Self)
        requires
            O::binary_phys(dtype.physical()),
            offsets_wf(offsets@, data@.len() as int),
            offsets@.len() <= i64::MAX,
            match validity {
                Some(v) => v.wf() && v.length == offsets@.len() - 1 && v.offset == 0,
                None => true,
            },
        ensures
            r.wf(),
            r.export_ready(),
            r.dtype == dtype,
            r.offset == 0,
            r.length == offsets@.len() - 1,
    {
        let length = offsets.len() - 1;
        BinaryArray { dtype, offsets, data, offset: 0, length, validity }
    }

    /// The number of elements of the window.
    pub fn len(&self) -> (r: usize)
        ensures
            r == self.length,
    {
        self.length
    }

    /// The bytes of element `i` of the window, copied out.
    pub fn value(&self, i: usize) -> (r: Vec<u8>)
        requires
            self.wf(),
            i < self.length,
        ensures
            r@ == self.bytes_at(i as int),
    {
        proof {
            crate::vecs::lemma_vec_len_bound(&self.data);
            lemma_offsets_mono(self.offsets@, self.offset + i, self.offsets@.len() - 1);
            lemma_offsets_mono(self.offsets@, self.offset + i + 1, self.offsets@.len() - 1);
            lemma_offsets_mono(self.offsets@, self.offset + i, self.offset + i + 1);
            assert(self.offsets@[self.offset + i].as_int() >= 0);
        }
        let lo = self.offsets[self.offset + i].to_index();
        let hi = self.offsets[self.offset + i + 1].to_index();
        crate::vecs::copy_range(&self.data, lo, hi - lo)
    }

    /// The number of null elements, counted from the bitmap.
    pub fn null_count(&self) -> (r: usize)
        requires
            self.wf(),
        ensures
            r == self.spec_null_count(),
            r <= self.length,
    {
        match &self.validity {
            Some(v) => v.unset_bits(),
            None => {
                proof {
                    crate::bitmap::lemma_count_false_all_true(self.valids());
                }
                0
            },
        }
    }

    /// Narrows the window to `offset .. offset + length` of it.
    pub fn slice(&mut self, offset: usize, length: usize)
        requires
            old(self).wf(),
            offset + length <= old(self).length,
        ensures
            final(self).wf(),
            final(self).dtype == old(self).dtype,
            final(self).length == length,
            final(self).offset == old(self).offset + offset,
            final(self).strings() == old(self).strings().subrange(
                offset as int,
                offset + length,
            ),
            final(self).valids() == old(self).valids().subrange(offset as int, offset + length),
            old(self).export_ready() ==> final(self).export_ready(),
    {
        let validity = match &self.validity {
            Some(v) => Some(v.sliced(offset, length)),
            None => None,
        };
        self.validity = validity;
        self.offset = self.offset + offset;
        self.length = length;
        proof {
            assert(self.strings() =~= old(self).strings().subrange(
                offset as int,
                offset + length,
            ));
            assert(self.valids() =~= old(self).valids().subrange(
                offset as int,
                offset + length,
            ));
        }
    }
}

} // verus!
