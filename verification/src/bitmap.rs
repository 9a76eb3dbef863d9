//! Packed validity bitmaps: one bit per logical element, stored least
//! significant bit first in a byte buffer, viewed through an element
//! window.

use vstd::prelude::*;

use crate::vecs::filled;

verus! {

/// The bit at position `i` of a little-endian packed bit buffer.
pub open spec fn spec_bit(bytes: Seq<u8>, i: int) -> bool {
    (bytes[i / 8] >> ((i % 8) as u8)) & 1u8 == 1u8
}

/// The number of whole bytes needed to hold `x` bits.
pub open spec fn spec_bytes_for(x: int) -> int {
    (x + 7) / 8
}

/// The number of `false` entries of a boolean sequence.
pub open spec fn count_false(s: Seq<bool>) -> nat
    decreases s.len(),
{
    if s.len() == 0 {
        0
    } else {
        count_false(s.drop_last()) + if s.last() {
            0nat
        } else {
            1nat
        }
    }
}

/// The number of whole bytes needed to hold `x` bits.
pub fn bytes_for(x: usize) -> (r: usize)
    ensures
        r == spec_bytes_for(x as int),
{
    x / 8 + if x % 8 == 0 {
        0
    } else {
        1
    }
}

/// A packed bit buffer together with a window of `length` bits
/// starting at bit `offset`.
#[derive(Debug)]
pub struct Bitmap {
    pub bytes: Vec<u8>,
    pub offset: usize,
    pub length: usize,
}

impl Bitmap {
    /// Well-formedness: the window lies within the buffer.
    pub open spec fn wf(&self) -> bool {
        self.offset + self.length <= self.bytes@.len() * 8
        && self.offset + self.length <= usize::MAX
    }

    /// The window, bit by bit.
    pub open spec fn view(&self) -> Seq<bool> {
        Seq::new(self.length as nat, |i: int| spec_bit(self.bytes@, self.offset + i))
    }

    /// The number of unset bits of the window.
    pub open spec fn spec_unset_bits(&self) -> nat {
        count_false(self.view())
    }

    /// An empty bitmap.
    pub fn empty() -> (r: Bitmap)
        ensures
            r.wf(),
            r.view() == Seq::<bool>::empty(),
            r.offset == 0,
            r.length == 0,
    {
        let r = Bitmap { bytes: Vec::new(), offset: 0, length: 0 };
        assert(r.view() =~= Seq::<bool>::empty());
        r
    }

    /// A bitmap of `length` unset bits.
    pub fn zeroed(length: usize) -> (r: Bitmap)
        ensures
            r.wf(),
            r.view().len() == length,
            forall|i: int| 0 <= i < length ==> !r.view()[i],
            r.offset == 0,
            r.length == length,
    {
        let n = bytes_for(length);
        let bytes = filled(0u8, n);
        let r = Bitmap { bytes, offset: 0, length };
        assert(length <= n * 8);
        assert(forall|k: u8| (0u8 >> k) & 1u8 == 0u8) by (bit_vector);
        assert forall|i: int| 0 <= i < length implies !r.view()[i] by {
            assert(r.bytes@[i / 8] == 0u8);
        }
        r
    }

    /// Wraps a byte buffer as a bitmap window, when the window fits.
    pub fn from_bytes(bytes: Vec<u8>, offset: usize, length: usize) -> (r: Result<
        Bitmap,
        (Vec<u8>, usize, usize),
    >)
        ensures
            r matches Ok(b) ==> b.wf() && b.bytes == bytes && b.offset == offset && b.length
                == length,
            r is Ok <==> offset + length <= bytes@.len() * 8 && offset + length <= usize::MAX,
            r matches Err(e) ==> e == (bytes, offset, length),
    {
        match offset.checked_add(length) {
            Some(total) => {
                let needed = bytes_for(total);
                if needed <= bytes.len() {
                    assert(total <= bytes@.len() * 8);
                    Ok(Bitmap { bytes, offset, length })
                } else {
                    assert(total > bytes@.len() * 8);
                    Err((bytes, offset, length))
                }
            },
            None => Err((bytes, offset, length)),
        }
    }

    /// The number of bits of the window.
    pub fn len(&self) -> (r: usize)
        ensures
            r == self.view().len(),
    {
        self.length
    }

    /// The bit at position `i` of the window.
    pub fn get(&self, i: usize) -> (r: bool)
        requires
            self.wf(),
            i < self.length,
        ensures
            r == self.view()[i as int],
    {
        let pos = self.offset + i;
        let byte = self.bytes[pos / 8];
        (byte >> ((pos % 8) as u8)) & 1u8 == 1u8
    }

    /// A narrower window into the same buffer.
    pub fn sliced(&self, offset: usize, length: usize) -> (r: Bitmap)
        requires
            self.wf(),
            offset + length <= self.length,
        ensures
            r.wf(),
            r.view() == self.view().subrange(offset as int, offset + length),
            r.offset == self.offset + offset,
            r.length == length,
    {
        let r = Bitmap { bytes: crate::vecs::copy_all(&self.bytes), offset: self.offset + offset, length };
        assert(r.view() =~= self.view().subrange(offset as int, offset + length));
        r
    }

    /// The number of unset bits of the window, counted in one pass.
    pub fn unset_bits(&self) -> (r: usize)
        requires
            self.wf(),
        ensures
            r == self.spec_unset_bits(),
            r <= self.length,
    {
        let mut count: usize = 0;
        let mut i: usize = 0;
        while i < self.length
            invariant
                self.wf(),
                i <= self.length,
                count == count_false(self.view().take(i as int)),
                count <= i,
            decreases self.length - i,
        {
            let b = self.get(i);
            proof {
                let v = self.view();
                assert(v.take(i + 1).drop_last() =~= v.take(i as int));
                assert(v.take(i + 1).last() == v[i as int]);
            }
            if !b {
                count = count + 1;
            }
            i = i + 1;
        }
        assert(self.view().take(self.length as int) =~= self.view());
        count
    }
}

/// A sequence with no `false` entry has zero of them.
pub proof fn lemma_count_false_all_true(s: Seq<bool>)
    requires
        forall|i: int| 0 <= i < s.len() ==> s[i],
    ensures
        count_false(s) == 0,
    decreases s.len(),
{
    if s.len() > 0 {
        lemma_count_false_all_true(s.drop_last());
    }
}

/// A sequence of only `false` entries has that many of them.
pub proof fn lemma_count_false_all_false(s: Seq<bool>)
    requires
        forall|i: int| 0 <= i < s.len() ==> !s[i],
    ensures
        count_false(s) == s.len(),
    decreases s.len(),
{
    if s.len() > 0 {
        lemma_count_false_all_false(s.drop_last());
    }
}

/// Counting never exceeds the length.
pub proof fn lemma_count_false_le(s: Seq<bool>)
    ensures
        count_false(s) <= s.len(),
    decreases s.len(),
{
    if s.len() > 0 {
        lemma_count_false_le(s.drop_last());
    }
}

/// A full count means every entry is `false`.
pub proof fn lemma_count_false_full(s: Seq<bool>)
    requires
        count_false(s) == s.len(),
    ensures
        forall|i: int| 0 <= i < s.len() ==> !s[i],
    decreases s.len(),
{
    if s.len() > 0 {
        lemma_count_false_le(s.drop_last());
        lemma_count_false_full(s.drop_last());
        assert forall|i: int| 0 <= i < s.len() implies !s[i] by {
            if i < s.len() - 1 {
                assert(s[i] == s.drop_last()[i]);
            }
        }
    }
}

/// A zero count means every entry is `true`.
pub proof fn lemma_count_false_zero(s: Seq<bool>)
    requires
        count_false(s) == 0,
    ensures
        forall|i: int| 0 <= i < s.len() ==> s[i],
    decreases s.len(),
{
    if s.len() > 0 {
        lemma_count_false_zero(s.drop_last());
        assert forall|i: int| 0 <= i < s.len() implies s[i] by {
            if i < s.len() - 1 {
                assert(s[i] == s.drop_last()[i]);
            }
        }
    }
}

/// A deep copy of an optional bitmap.
pub fn opt_bitmap_clone(v: &Option<Bitmap>) -> (r: Option<Bitmap>)
    ensures
        r is Some <==> v is Some,
        v is Some ==> r.unwrap().bytes@ == v.unwrap().bytes@ && r.unwrap().offset
            == v.unwrap().offset && r.unwrap().length == v.unwrap().length && r.unwrap().view()
            == v.unwrap().view() && (r.unwrap().wf() == v.unwrap().wf()),
{
    match v {
        Some(b) => Some(bitmap_clone(b)),
        None => None,
    }
}

/// A deep copy of a bitmap.
pub fn bitmap_clone(b: &Bitmap) -> (r: Bitmap)
    ensures
        r.bytes@ == b.bytes@,
        r.offset == b.offset,
        r.length == b.length,
        r.view() == b.view(),
        r.wf() == b.wf(),
{
    let r = Bitmap { bytes: crate::vecs::copy_all(&b.bytes), offset: b.offset, length: b.length };
    assert(r.view() =~= b.view());
    r
}

} // verus!
