//! View-encoded byte-string arrays: each element is described by a
//! 16-byte view. A short value (at most 12 bytes) is stored inline in
//! the view; a longer one is a (buffer, offset) reference into one of
//! the variadic data buffers.

use vstd::prelude::*;

use crate::bitmap::{count_false, Bitmap};
use crate::dtype::{DataType, PhysicalType};

verus! {

/// The byte length a view declares (its low 32 bits).
pub open spec fn view_len(v: u128) -> int {
    (v & 0xFFFF_FFFF) as int
}

/// The inline byte `j` of a short view (bytes 4 through 15).
pub open spec fn view_inline_byte(v: u128, j: int) -> u8 {
    ((v >> ((32 + 8 * j) as u128)) & 0xFF) as u8
}

/// The variadic buffer index of a long view (bytes 8 through 11).
pub open spec fn view_buffer_idx(v: u128) -> int {
    ((v >> 64u128) & 0xFFFF_FFFF) as int
}

/// The buffer-local byte offset of a long view (bytes 12 through 15).
pub open spec fn view_offset(v: u128) -> int {
    ((v >> 96u128) & 0xFFFF_FFFF) as int
}

/// Whether a view is consistent with the given data buffers: a long
/// view must reference a buffer and a byte run that exist.
pub open spec fn view_ok(v: u128, bufs: Seq<Seq<u8>>) -> bool {
    view_len(v) <= 12 || (view_buffer_idx(v) < bufs.len() && view_offset(v) + view_len(v)
        <= bufs[view_buffer_idx(v)].len())
}

/// The bytes a view stands for, given the data buffers.
pub open spec fn view_bytes(v: u128, bufs: Seq<Seq<u8>>) -> Seq<u8> {
    if view_len(v) <= 12 {
        Seq::new(view_len(v) as nat, |j: int| view_inline_byte(v, j))
    } else {
        bufs[view_buffer_idx(v)].subrange(view_offset(v), view_offset(v) + view_len(v))
    }
}

/// A view-encoded byte-string array.
#[derive(Debug)]
pub struct BinViewArray {
    pub dtype: DataType,
    pub views: Vec<u128>,
    pub data_buffers: Vec<Vec<u8>>,
    pub offset: usize,
    pub length: usize,
    pub validity: Option<Bitmap>,
}

impl BinViewArray {
    /// The data buffers, byte by byte.
    pub open spec fn bufs(&self) -> Seq<Seq<u8>> {
        Seq::new(self.data_buffers@.len(), |i: int| self.data_buffers@[i]@)
    }

    /// Well-formedness: the descriptor is a view layout, the window
    /// lies in the views buffer, every view is consistent with the
    /// data buffers, and the buffer shapes fit the signed 64-bit
    /// fields of the interchange struct.
    pub open spec fn wf(&self) -> bool {
        &&& (self.dtype.physical() == PhysicalType::BinaryView || self.dtype.physical()
            == PhysicalType::Utf8View)
        &&& self.offset + self.length <= self.views@.len()
        &&& self.offset + self.length <= usize::MAX
        &&& self.offset + self.length <= i64::MAX
        &&& forall|i: int| 0 <= i < self.views@.len() ==> view_ok(#[trigger] self.views@[i], self.bufs())
        &&& self.data_buffers@.len() + 3 <= i64::MAX
        &&& forall|i: int|
            0 <= i < self.data_buffers@.len() ==> (#[trigger] self.data_buffers@[i]@.len())
                <= i64::MAX
        &&& match self.validity {
            Some(v) => v.wf() && v.length == self.length,
            None => true,
        }
    }

    /// Ready for export: the validity window starts where the views
    /// window starts.
    pub open spec fn export_ready(&self) -> bool {
        match self.validity {
            Some(v) => v.offset == self.offset,
            None => true,
        }
    }

    /// The bytes of element `i` of the window.
    pub open spec fn bytes_at(&self, i: int) -> Seq<u8> {
        view_bytes(self.views@[self.offset + i], self.bufs())
    }

    /// The elements of the window.
    pub open spec fn strings(&self) -> Seq<Seq<u8>> {
        Seq::new(self.length as nat, |i: int| self.bytes_at(i))
    }

    /// The validity of the window: absent bitmap means all valid.
    pub open spec fn valids(&self) -> Seq<bool> {
        match self.validity {
            Some(v) => v.view(),
            None => Seq::new(self.length as nat, |i: int| true),
        }
    }

    /// The number of null elements.
    pub open spec fn spec_null_count(&self) -> nat {
        count_false(self.valids())
    }

    /// The number of elements of the window.
    pub fn len(&self) -> (r: usize)
        ensures
            r == self.length,
    {
        self.length
    }

    /// The per-buffer byte lengths of the variadic data buffers, as
    /// they are published in the auxiliary length buffer on export.
    pub fn variadic_buffer_lengths(&self) -> (r: Vec<i64>)
        requires
            self.wf(),
        ensures
            r@.len() == self.bufs().len(),
            forall|i: int| 0 <= i < r@.len() ==> (#[trigger] r@[i]) as int == self.bufs()[i].len(),
            forall|i: int| 0 <= i < r@.len() ==> 0 <= (#[trigger] r@[i]) as int <= usize::MAX,
    {
        let mut out: Vec<i64> = Vec::new();
        let mut i: usize = 0;
        while i < self.data_buffers.len()
            invariant
                self.wf(),
                i <= self.data_buffers@.len(),
                out@.len() == i,
                forall|j: int| 0 <= j < i ==> (#[trigger] out@[j]) as int == self.bufs()[j].len(),
                forall|j: int| 0 <= j < i ==> 0 <= (#[trigger] out@[j]) as int <= usize::MAX,
            decreases self.data_buffers@.len() - i,
        {
            let n = self.data_buffers[i].len();
            out.push(n as i64);
            i = i + 1;
        }
        out
    }
}

/// Scans the first `end` entries of a views buffer for consistency
/// with the given data buffers.
pub fn check_views(views: &Vec<u128>, end: usize, data_buffers: &Vec<Vec<u8>>) -> (r: bool)
    requires
        end <= views@.len(),
    ensures
        r <==> forall|i: int|
            0 <= i < end ==> view_ok(
                #[trigger] views@[i],
                Seq::new(data_buffers@.len(), |k: int| data_buffers@[k]@),
            ),
{
    let ghost bufs = Seq::new(data_buffers@.len(), |k: int| data_buffers@[k]@);
    let mut i: usize = 0;
    while i < end
        invariant
            i <= end <= views@.len(),
            bufs == Seq::new(data_buffers@.len(), |k: int| data_buffers@[k]@),
            forall|j: int| 0 <= j < i ==> view_ok(#[trigger] views@[j], bufs),
        decreases end - i,
    {
        let v = views[i];
        proof {
            assert((v & 0xFFFF_FFFF) <= 0xFFFF_FFFF) by (bit_vector);
            assert(((v >> 64u128) & 0xFFFF_FFFF) <= 0xFFFF_FFFF) by (bit_vector);
            assert(((v >> 96u128) & 0xFFFF_FFFF) <= 0xFFFF_FFFF) by (bit_vector);
        }
        let len = (v & 0xFFFF_FFFF) as u32;
        if len > 12 {
            let idx = ((v >> 64u128) & 0xFFFF_FFFF) as u32;
            let off = ((v >> 96u128) & 0xFFFF_FFFF) as u32;
            if (idx as usize) >= data_buffers.len() {
                assert(!view_ok(views@[i as int], bufs));
                return false;
            }
            let blen = data_buffers[idx as usize].len();
            if !((off as u64) + (len as u64) <= (blen as u64)) {
                assert(!view_ok(views@[i as int], bufs));
                return false;
            }
            assert(view_ok(views@[i as int], bufs));
        } else {
            assert(view_ok(views@[i as int], bufs));
        }
        i = i + 1;
    }
    true
}

} // verus!
