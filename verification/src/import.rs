//! The import path: walking a foreign interchange struct tree and
//! reconstructing native arrays. Every check the importer performs on
//! the foreign tree is stated by the acceptance predicates below, and
//! the reconstructed content is pinned to the tree's buffers by the
//! cell model.

use vstd::prelude::*;

use crate::abi::ArrowArray;
use crate::array::{Array, Cell};
use crate::bitmap::{spec_bit, spec_bytes_for, Bitmap};
use crate::buffer::{BufferData, ForeignBuffer};
use crate::dtype::{DataType, PhysicalType};
use crate::error::ArrowError;
use crate::dictionary::{DictionaryArray, DictionaryKey};
use crate::native::Native;
use crate::primitive::PrimitiveArray;
use crate::varbin::Offset;
use crate::vecs::{copy_prefix, copy_range};

verus! {

/// The scalar fields of a struct are usable: non-negative and small
/// enough to be used as machine indices (the window bound also fits
/// the signed 64-bit field, so a reconstructed array can be exported
/// again).
pub open spec fn fields_ok(t: ArrowArray) -> bool {
    &&& 0 <= t.length
    &&& 0 <= t.offset
    &&& t.offset + t.length <= i64::MAX
    &&& t.offset + t.length <= usize::MAX
    &&& 0 <= t.n_buffers <= usize::MAX
    &&& 0 <= t.n_children <= usize::MAX
}

/// Checks the scalar fields of a struct.
pub fn check_fields(t: &ArrowArray) -> (r: bool)
    ensures
        r == fields_ok(*t),
{
    t.length >= 0 && t.offset >= 0 && t.n_buffers >= 0 && t.n_children >= 0 && (t.offset
        as u128) + (t.length as u128) <= (i64::MAX as u128) && (t.offset as u128) + (t.length
        as u128) <= (usize::MAX as u128) && (t.n_buffers as u128) <= (usize::MAX as u128) && (
    t.n_children as u128) <= (usize::MAX as u128)
}

/// Whether buffer `i` can be fetched: the buffer list is present, the
/// index is within the declared count, the list really is that long,
/// and the entry is not null.
pub open spec fn buffer_ok(t: ArrowArray, i: int) -> bool {
    &&& t.buffers is Some
    &&& i < t.n_buffers
    &&& i < t.buffers.unwrap()@.len()
    &&& t.buffers.unwrap()@[i] is Some
}

/// Buffer `i`, when it can be fetched.
pub open spec fn the_buffer(t: ArrowArray, i: int) -> ForeignBuffer {
    t.buffers.unwrap()@[i].unwrap()
}

/// The error fetching buffer `i` reports, when it cannot be fetched.
pub open spec fn buffer_err(t: ArrowArray, i: int) -> ArrowError {
    if t.buffers is None {
        ArrowError::NullBuffers
    } else if i >= t.n_buffers {
        ArrowError::BufferIndexOut { index: i as usize, n_buffers: t.n_buffers as usize }
    } else if i >= t.buffers.unwrap()@.len() {
        ArrowError::BuffersTooShort { index: i as usize, have: t.buffers.unwrap()@.len() as usize }
    } else {
        ArrowError::NullBufferAt { index: i as usize }
    }
}

/// Locates buffer `index`, validating presence, declared range and
/// non-nullness.
pub fn get_buffer<'a>(t: &'a ArrowArray, index: usize) -> (r: Result<&'a ForeignBuffer, ArrowError>)
    requires
        fields_ok(*t),
    ensures
        r is Ok <==> buffer_ok(*t, index as int),
        r matches Ok(b) ==> *b == the_buffer(*t, index as int),
        r matches Err(e) ==> e == buffer_err(*t, index as int),
{
    match &t.buffers {
        None => Err(ArrowError::NullBuffers),
        Some(bs) => {
            if (index as u128) >= (t.n_buffers as u128) {
                return Err(
                    ArrowError::BufferIndexOut { index, n_buffers: t.n_buffers as usize },
                );
            }
            if index >= bs.len() {
                return Err(ArrowError::BuffersTooShort { index, have: bs.len() });
            }
            match &bs[index] {
                None => Err(ArrowError::NullBufferAt { index }),
                Some(b) => Ok(b),
            }
        },
    }
}

/// Whether the struct declares any null elements. The declared null
/// count is trusted as the presence flag and never verified against
/// the bitmap; the count a reconstructed array reports is, however,
/// recomputed from the bits (the bitmaps of this crate cache no
/// count), so a struct whose declared count disagrees with its bitmap
/// yields an array whose count follows the bits.
pub open spec fn has_validity(t: ArrowArray) -> bool {
    t.null_count != 0
}

/// Whether the validity bitmap of the struct can be reconstructed:
/// either no nulls are declared, or buffer 0 is a byte buffer with
/// room for the window's bits (an empty window needs no buffer).
pub open spec fn validity_ok(t: ArrowArray) -> bool {
    !has_validity(t) || t.length == 0 || (buffer_ok(t, 0) && the_buffer(t, 0).data is U8
        && spec_bytes_for(t.offset + t.length) <= the_buffer(t, 0).data.spec_len())
}

/// The validity of the window that the struct describes: all valid
/// when no nulls are declared, otherwise the bits of buffer 0 at the
/// struct's offset.
pub open spec fn tree_valids(t: ArrowArray) -> Seq<bool> {
    if !has_validity(t) {
        Seq::new(t.length as nat, |i: int| true)
    } else {
        Seq::new(
            t.length as nat,
            |i: int|
                spec_bit(
                    (match the_buffer(t, 0).data {
                        BufferData::U8(v) => v@,
                        _ => Seq::empty(),
                    }),
                    t.offset + i,
                ),
        )
    }
}

/// Reconstructs a bitmap from buffer `index`: `len` bits starting at
/// bit `offset` of that byte buffer. An empty window needs no buffer.
pub fn create_bitmap(t: &ArrowArray, index: usize, offset: usize, len: usize) -> (r: Result<
    Bitmap,
    ArrowError,
>)
    requires
        fields_ok(*t),
        offset + len <= usize::MAX,
    ensures
        r is Ok <==> len == 0 || (buffer_ok(*t, index as int) && the_buffer(*t, index as int).data
            is U8 && spec_bytes_for(offset + len) <= the_buffer(*t, index as int).data.spec_len()),
        r matches Ok(b) ==> b.wf() && b.length == len && (len > 0 ==> b.offset == offset) && (len
            == 0 ==> b.offset == 0) && b.view()
            =~= Seq::new(
            len as nat,
            |i: int|
                spec_bit(
                    (match the_buffer(*t, index as int).data {
                        BufferData::U8(v) => v@,
                        _ => Seq::empty(),
                    }),
                    offset + i,
                ),
        ),
{
    if len == 0 {
        let b = Bitmap::empty();
        return Ok(b);
    }
    let fb = match get_buffer(t, index) {
        Ok(fb) => fb,
        Err(e) => {
            return Err(e);
        },
    };
    match &fb.data {
        BufferData::U8(bytes) => {
            let need = crate::bitmap::bytes_for(offset + len);
            if bytes.len() < need {
                return Err(
                    ArrowError::BufferTooSmall { index, need, have: bytes.len() },
                );
            }
            let copied = copy_prefix(bytes, need);
            let b = Bitmap { bytes: copied, offset, length: len };
            proof {
                assert forall|i: int| 0 <= i < len implies b.view()[i] == spec_bit(
                    bytes@,
                    offset + i,
                ) by {
                    assert(b.bytes@[(offset + i) / 8] == bytes@[(offset + i) / 8]);
                }
            }
            Ok(b)
        },
        _ => Err(ArrowError::WrongBufferKind { index }),
    }
}

/// Reconstructs the optional validity bitmap of the struct: absent
/// when the struct declares no nulls.
pub fn import_validity(t: &ArrowArray, offset: usize, len: usize) -> (r: Result<
    Option<Bitmap>,
    ArrowError,
>)
    requires
        fields_ok(*t),
        offset as int == t.offset as int,
        len as int == t.length as int,
    ensures
        r is Ok <==> validity_ok(*t),
        r matches Ok(v) ==> match v {
            Some(b) => has_validity(*t) && b.wf() && b.length == len && (len > 0 ==> b.offset
                == offset) && b.view() =~= tree_valids(*t),
            None => !has_validity(*t),
        },
{
    if t.null_count == 0 {
        Ok(None)
    } else {
        match create_bitmap(t, 0, offset, len) {
            Ok(b) => Ok(Some(b)),
            Err(e) => Err(e),
        }
    }
}

/// Whether a primitive-element buffer at `index` suits element type
/// `T`: present, of the right element kind, and covering the window.
pub open spec fn data_buffer_ok<T: Native>(t: ArrowArray, index: int, slots: int) -> bool {
    &&& buffer_ok(t, index)
    &&& T::matches(the_buffer(t, index).data)
    &&& slots <= the_buffer(t, index).data.spec_len()
}

/// The elements of the window of the buffer at `index`, as integers.
pub open spec fn window_ints(t: ArrowArray, index: int) -> Seq<int> {
    Seq::new(
        t.length as nat,
        |i: int| the_buffer(t, index).data.ints()[t.offset + i],
    )
}

/// Reconstructs a typed value buffer from buffer `index` of the
/// struct: the window `offset .. offset + len` of its elements. When
/// the foreign address is aligned for the element type the memory is
/// wrapped as it stands (the whole prefix is retained and the window
/// starts at `offset`); otherwise a fallback copy of the window alone
/// is taken. Either way the window holds the same values. A window of
/// zero slots needs no buffer at all, so a null pointer there is
/// accepted.
pub fn create_buffer<T: Native>(t: &ArrowArray, index: usize, offset: usize, len: usize) -> (r:
    Result<PrimitiveArray<T>, ArrowError>)
    requires
        fields_ok(*t),
        offset as int == t.offset as int,
        len as int == t.length as int,
    ensures
        r is Ok <==> (t.offset + t.length == 0 || data_buffer_ok::<T>(
            *t,
            index as int,
            t.offset + t.length,
        )) && validity_ok(*t),
        r matches Ok(a) ==> a.wf() && a.length == len && a.ints() =~= window_ints(*t, index as int)
            && a.valids() =~= tree_valids(*t) && a.dtype == crate::dtype::spec_integer_dtype(
            T::tag(),
        ),
{
    let validity = match import_validity(t, offset, len) {
        Ok(v) => v,
        Err(e) => {
            return Err(e);
        },
    };
    if offset + len == 0 {
        let dtype = crate::dtype::integer_dtype(T::rt_tag());
        let a = PrimitiveArray { dtype, values: Vec::new(), offset: 0, length: 0, validity };
        proof {
            assert(a.ints() =~= window_ints(*t, index as int));
            assert(a.valids() =~= tree_valids(*t));
        }
        return Ok(a);
    }
    let fb = match get_buffer(t, index) {
        Ok(fb) => fb,
        Err(e) => {
            return Err(e);
        },
    };
    let slots = offset + len;
    if fb.data.len() < slots {
        return Err(
            ArrowError::BufferTooSmall { index, need: slots, have: fb.data.len() },
        );
    }
    let dtype = crate::dtype::integer_dtype(T::rt_tag());
    let align = T::align_of_elem();
    if fb.addr % align == 0 {
        let values = match T::extract_range(&fb.data, 0, slots) {
            Some(v) => v,
            None => {
                return Err(ArrowError::WrongBufferKind { index });
            },
        };
        let a = PrimitiveArray { dtype, values, offset, length: len, validity };
        proof {
            assert(a.ints() =~= window_ints(*t, index as int));
            assert(a.valids() =~= tree_valids(*t));
        }
        Ok(a)
    } else {
        let values = match T::extract_range(&fb.data, offset, len) {
            Some(v) => v,
            None => {
                return Err(ArrowError::WrongBufferKind { index });
            },
        };
        let a = PrimitiveArray { dtype, values, offset: 0, length: len, validity };
        proof {
            assert(a.ints() =~= window_ints(*t, index as int));
            assert(a.valids() =~= tree_valids(*t));
        }
        Ok(a)
    }
}


/// Whether an offsets buffer at `index` suits offset type `O` for the
/// declared window: present, of the right element kind, holding one
/// entry more than the window, with a non-negative, non-decreasing
/// prefix whose closing entry fits a machine index.
pub open spec fn offsets_buffer_ok<O: Offset>(t: ArrowArray, index: int) -> bool {
    &&& buffer_ok(t, index)
    &&& O::matches(the_buffer(t, index).data)
    &&& t.offset + t.length + 1 <= usize::MAX
    &&& t.offset + t.length + 1 <= the_buffer(t, index).data.spec_len()
    &&& forall|i: int|
        0 <= i <= t.offset + t.length ==> 0 <= (#[trigger] the_buffer(t, index).data.ints()[i])
    &&& forall|i: int|
        0 <= i < t.offset + t.length ==> (#[trigger] the_buffer(t, index).data.ints()[i])
            <= the_buffer(t, index).data.ints()[i + 1]
    &&& the_buffer(t, index).data.ints()[t.offset + t.length] <= usize::MAX
}

/// The offset entries delimiting the window: one more than the
/// window has elements.
pub open spec fn window_bounds(t: ArrowArray, index: int) -> Seq<int> {
    Seq::new((t.length + 1) as nat, |i: int| the_buffer(t, index).data.ints()[t.offset + i])
}

/// Reconstructs an offsets buffer from buffer `index`: the window's
/// `len + 1` delimiting entries. As with value buffers, an aligned
/// foreign address keeps the whole prefix and the window offset, a
/// misaligned one takes a copy of the window alone. Returns the
/// stored buffer, the window start within it, and the closing entry
/// as a machine index.
#[verifier::rlimit(30)]
pub fn import_offsets<O: Offset>(t: &ArrowArray, index: usize, offset: usize, len: usize) -> (r:
    Result<(Vec<O>, usize, usize), ArrowError>)
    requires
        fields_ok(*t),
        offset as int == t.offset as int,
        len as int == t.length as int,
    ensures
        r is Ok <==> offsets_buffer_ok::<O>(*t, index as int),
        r matches Ok(p) ==> {
            &&& p.0@.len() == p.1 + len + 1
            &&& p.1 <= offset
            &&& p.1 + len + 1 <= usize::MAX
            &&& crate::varbin::offsets_nonneg(p.0@)
            &&& crate::varbin::offsets_mono(p.0@)
            &&& Seq::new((len + 1) as nat, |i: int| p.0@[p.1 + i].as_int()) =~= window_bounds(
                *t,
                index as int,
            )
            &&& p.2 as int == the_buffer(*t, index as int).data.ints()[t.offset + t.length]
            &&& p.0@.last().as_int() == p.2 as int
        },
{
    let fb = match get_buffer(t, index) {
        Ok(fb) => fb,
        Err(e) => {
            return Err(e);
        },
    };
    if offset >= usize::MAX - len {
        return Err(ArrowError::LengthOverflow);
    }
    let slots = offset + len + 1;
    if fb.data.len() < slots {
        return Err(
            ArrowError::BufferTooSmall { index, need: slots, have: fb.data.len() },
        );
    }
    let prefix = match O::extract_range(&fb.data, 0, slots) {
        Some(v) => v,
        None => {
            return Err(ArrowError::WrongBufferKind { index });
        },
    };
    let ghost ints = the_buffer(*t, index as int).data.ints();
    proof {
        assert forall|j: int| 0 <= j < slots implies (#[trigger] ints[j]) == prefix@[j].as_int() by {
            assert(prefix@[j].as_int() == ints[j]);
        }
    }
    if !crate::varbin::check_offsets_range(&prefix, slots) {
        return Err(ArrowError::MalformedOffsets);
    }
    if !prefix[slots - 1].le_index(usize::MAX) {
        return Err(ArrowError::LengthOverflow);
    }
    let closing = prefix[slots - 1].to_index();
    let aligned = fb.addr % O::align_of_elem() == 0;
    if aligned {
        let r = (prefix, offset, closing);
        proof {
            assert(Seq::new((len + 1) as nat, |i: int| r.0@[r.1 + i].as_int()) =~= window_bounds(
                *t,
                index as int,
            ));
        }
        Ok(r)
    } else {
        let window = match O::extract_range(&fb.data, offset, len + 1) {
            Some(v) => v,
            None => {
                return Err(ArrowError::WrongBufferKind { index });
            },
        };
        let r = (window, 0usize, closing);
        proof {
            assert forall|i: int| 0 <= i < r.0@.len() implies (#[trigger] r.0@[i].as_int()) >= 0 by {
                assert(r.0@[i].as_int() == ints[offset + i]);
                assert(prefix@[offset + i].as_int() == ints[offset + i]);
                assert(prefix@[offset + i].as_int() >= 0);
            }
            assert forall|i: int| 0 <= i < r.0@.len() - 1 implies (#[trigger] r.0@[i].as_int())
                <= r.0@[i + 1].as_int() by {
                assert(r.0@[i].as_int() == ints[offset + i]);
                assert(r.0@[i + 1].as_int() == ints[offset + i + 1]);
                assert(prefix@[offset + i].as_int() == ints[offset + i]);
                assert(prefix@[offset + i + 1].as_int() == ints[offset + i + 1]);
                assert(prefix@[offset + i].as_int() <= prefix@[offset + i + 1].as_int());
            }
            assert(Seq::new((len + 1) as nat, |i: int| r.0@[r.1 + i].as_int()) =~= window_bounds(
                *t,
                index as int,
            ));
        }
        Ok(r)
    }
}

/// Whether a byte-string struct can be imported with offset type `O`:
/// usable fields, reconstructible validity, a valid offsets buffer at
/// slot 1, and a byte data buffer at slot 2 long enough for the
/// closing offset.
pub open spec fn binary_ok<O: Offset>(t: ArrowArray) -> bool {
    &&& fields_ok(t)
    &&& validity_ok(t)
    &&& offsets_buffer_ok::<O>(t, 1)
    &&& buffer_ok(t, 2)
    &&& the_buffer(t, 2).data is U8
    &&& the_buffer(t, 1).data.ints()[t.offset + t.length] <= the_buffer(t, 2).data.spec_len()
}

/// The data bytes of a struct's buffer at `index`.
pub open spec fn tree_bytes(t: ArrowArray, index: int) -> Seq<u8> {
    match the_buffer(t, index).data {
        BufferData::U8(v) => v@,
        _ => Seq::empty(),
    }
}

/// The byte strings a byte-string struct describes: element `i` is
/// the run of data bytes between the delimiting offsets. The data
/// buffer is always zero-based.
pub open spec fn tree_strings(t: ArrowArray) -> Seq<Seq<u8>> {
    Seq::new(
        t.length as nat,
        |i: int|
            tree_bytes(t, 2).subrange(
                the_buffer(t, 1).data.ints()[t.offset + i],
                the_buffer(t, 1).data.ints()[t.offset + i + 1],
            ),
    )
}

/// Reconstructs a variable-length byte-string array: offsets from
/// buffer 1, data from buffer 2 (zero-based, its length given by the
/// closing offset).
pub fn import_binary<O: Offset>(t: &ArrowArray, dt: &DataType) -> (r: Result<
    crate::varbin::BinaryArray<O>,
    ArrowError,
>)
    requires
        dt.wf(),
        O::binary_phys(dt.physical()),
    ensures
        r is Ok <==> binary_ok::<O>(*t),
        r matches Ok(a) ==> {
            &&& a.wf()
            &&& a.dtype == *dt
            &&& a.length as int == t.length as int
            &&& a.valids() =~= tree_valids(*t)
            &&& a.strings() =~= tree_strings(*t)
        },
{
    if !check_fields(t) {
        return Err(ArrowError::FieldOutOfRange);
    }
    let offset = t.offset();
    let len = t.len();
    let validity = match import_validity(t, offset, len) {
        Ok(v) => v,
        Err(e) => {
            return Err(e);
        },
    };
    let (offsets, win, closing) = match import_offsets::<O>(t, 1, offset, len) {
        Ok(p) => p,
        Err(e) => {
            return Err(e);
        },
    };
    let fb = match get_buffer(t, 2) {
        Ok(fb) => fb,
        Err(e) => {
            return Err(e);
        },
    };
    let data = match &fb.data {
        BufferData::U8(bytes) => {
            if bytes.len() < closing {
                return Err(
                    ArrowError::BufferTooSmall { index: 2, need: closing, have: bytes.len() },
                );
            }
            copy_prefix(bytes, closing)
        },
        _ => {
            return Err(ArrowError::WrongBufferKind { index: 2 });
        },
    };
    let ghost bounds = window_bounds(*t, 1);
    let a = crate::varbin::BinaryArray {
        dtype: crate::dtype::dtype_clone(dt),
        offsets,
        data,
        offset: win,
        length: len,
        validity,
    };
    proof {
        crate::varbin::lemma_offsets_mono(a.offsets@, a.offset + a.length, a.offsets@.len() - 1);
        assert(a.wf());
        assert forall|i: int| 0 <= i < len implies a.strings()[i] == tree_strings(*t)[i] by {
            assert(a.bound(i) == bounds[i]);
            assert(a.bound(i + 1) == bounds[i + 1]);
            crate::varbin::lemma_offsets_mono(a.offsets@, a.offset + i, a.offsets@.len() - 1);
            crate::varbin::lemma_offsets_mono(a.offsets@, a.offset + i + 1, a.offsets@.len() - 1);
            assert(a.bytes_at(i) =~= tree_strings(*t)[i]);
        }
        assert(a.strings() =~= tree_strings(*t));
        assert(a.valids() =~= tree_valids(*t));
    }
    Ok(a)
}

/// Whether a fixed-size byte-string struct can be imported: usable
/// fields, reconstructible validity, and a byte data buffer at slot 1
/// covering `size` bytes per window element.
pub open spec fn fixed_binary_ok(t: ArrowArray, size: int) -> bool {
    &&& fields_ok(t)
    &&& validity_ok(t)
    &&& size * (t.offset + t.length) <= usize::MAX
    &&& size * (t.offset + t.length) <= i64::MAX
    &&& buffer_ok(t, 1)
    &&& the_buffer(t, 1).data is U8
    &&& size * (t.offset + t.length) <= the_buffer(t, 1).data.spec_len()
}

/// The byte strings a fixed-size byte-string struct describes.
pub open spec fn tree_fixed_strings(t: ArrowArray, size: int) -> Seq<Seq<u8>> {
    Seq::new(
        t.length as nat,
        |i: int|
            tree_bytes(t, 1).subrange(size * (t.offset + i), size * (t.offset + i + 1)),
    )
}

/// Reconstructs a fixed-size byte-string array from buffer 1; the
/// byte window is the element window scaled by the declared width.
pub fn import_fixed_binary(t: &ArrowArray, dt: &DataType, size: usize) -> (r: Result<
    crate::fixed::FixedSizeBinaryArray,
    ArrowError,
>)
    requires
        dt.wf(),
        *dt == DataType::FixedSizeBinary(size),
    ensures
        r is Ok <==> fixed_binary_ok(*t, size as int),
        r matches Ok(a) ==> {
            &&& a.wf()
            &&& a.dtype == *dt
            &&& a.length as int == t.length as int
            &&& a.valids() =~= tree_valids(*t)
            &&& a.strings() =~= tree_fixed_strings(*t, size as int)
        },
{
    if !check_fields(t) {
        return Err(ArrowError::FieldOutOfRange);
    }
    let offset = t.offset();
    let len = t.len();
    let validity = match import_validity(t, offset, len) {
        Ok(v) => v,
        Err(e) => {
            return Err(e);
        },
    };
    let total = match size.checked_mul(offset + len) {
        Some(x) => x,
        None => {
            return Err(ArrowError::LengthOverflow);
        },
    };
    if (total as u128) > (i64::MAX as u128) {
        return Err(ArrowError::LengthOverflow);
    }
    let fb = match get_buffer(t, 1) {
        Ok(fb) => fb,
        Err(e) => {
            return Err(e);
        },
    };
    let data = match &fb.data {
        BufferData::U8(bytes) => {
            if bytes.len() < total {
                return Err(
                    ArrowError::BufferTooSmall { index: 1, need: total, have: bytes.len() },
                );
            }
            copy_prefix(bytes, total)
        },
        _ => {
            return Err(ArrowError::WrongBufferKind { index: 1 });
        },
    };
    let a = crate::fixed::FixedSizeBinaryArray {
        dtype: crate::dtype::dtype_clone(dt),
        data,
        offset,
        length: len,
        validity,
    };
    proof {
        assert(a.size() == size as int);
        assert(a.wf()) by {
            assert(a.size() * (a.offset + a.length) == size * (offset + len));
        }
        assert forall|i: int| 0 <= i < len implies a.strings()[i] == tree_fixed_strings(
            *t,
            size as int,
        )[i] by {
            assert(size * (t.offset + i) <= size * (t.offset + i + 1) <= size * (t.offset
                + t.length)) by (nonlinear_arith)
                requires
                    0 <= i < len,
                    len as int == t.length as int,
                    size >= 0,
                    0 <= t.offset,
            ;
            assert(a.bytes_at(i) =~= tree_fixed_strings(*t, size as int)[i]);
        }
        assert(a.strings() =~= tree_fixed_strings(*t, size as int));
        assert(a.valids() =~= tree_valids(*t));
    }
    Ok(a)
}

/// Whether child `i` can be fetched: the child list is present, the
/// index is within the declared count, the list really is that long,
/// and the entry is not null.
pub open spec fn child_ok(t: ArrowArray, i: int) -> bool {
    &&& t.children is Some
    &&& i < t.n_children
    &&& i < t.children.unwrap()@.len()
    &&& t.children.unwrap()@[i] is Some
}

/// Child `i`, when it can be fetched.
pub open spec fn the_child(t: ArrowArray, i: int) -> ArrowArray {
    *t.children.unwrap()@[i].unwrap()
}

/// The error fetching child `i` reports, when it cannot be fetched.
pub open spec fn child_err(t: ArrowArray, i: int) -> ArrowError {
    if t.children is None {
        ArrowError::NullChildren
    } else if i >= t.n_children {
        ArrowError::ChildIndexOut { index: i as usize, n_children: t.n_children as usize }
    } else if i >= t.children.unwrap()@.len() {
        ArrowError::ChildrenTooShort { index: i as usize, have: t.children.unwrap()@.len() as usize }
    } else {
        ArrowError::NullChildAt { index: i as usize }
    }
}

/// Resolves the child struct at `index`, validating presence,
/// declared range and non-nullness.
pub fn get_child_struct<'a>(t: &'a ArrowArray, index: usize) -> (r: Result<
    &'a ArrowArray,
    ArrowError,
>)
    requires
        fields_ok(*t),
    ensures
        r is Ok <==> child_ok(*t, index as int),
        r matches Ok(c) ==> *c == the_child(*t, index as int),
        r matches Err(e) ==> e == child_err(*t, index as int),
{
    match &t.children {
        None => Err(ArrowError::NullChildren),
        Some(cs) => {
            if (index as u128) >= (t.n_children as u128) {
                return Err(
                    ArrowError::ChildIndexOut { index, n_children: t.n_children as usize },
                );
            }
            if index >= cs.len() {
                return Err(ArrowError::ChildrenTooShort { index, have: cs.len() });
            }
            match &cs[index] {
                None => Err(ArrowError::NullChildAt { index }),
                Some(c) => Ok(c),
            }
        },
    }
}

/// Whether a boolean struct can be imported: usable fields,
/// reconstructible validity, and a packed bit buffer at slot 1
/// covering the window.
pub open spec fn boolean_ok(t: ArrowArray) -> bool {
    &&& fields_ok(t)
    &&& validity_ok(t)
    &&& (t.length == 0 || (buffer_ok(t, 1) && the_buffer(t, 1).data is U8 && spec_bytes_for(
        t.offset + t.length,
    ) <= the_buffer(t, 1).data.spec_len()))
}

/// The boolean values a boolean struct describes: the bits of buffer
/// 1 at the struct's offset.
pub open spec fn tree_bits(t: ArrowArray) -> Seq<bool> {
    Seq::new(t.length as nat, |i: int| spec_bit(tree_bytes(t, 1), t.offset + i))
}

/// Reconstructs a boolean array: the values are themselves a packed
/// bit buffer, read at slot 1.
pub fn import_boolean(t: &ArrowArray, dt: &DataType) -> (r: Result<
    crate::array::BooleanArray,
    ArrowError,
>)
    requires
        dt.wf(),
        *dt is Boolean,
    ensures
        r is Ok <==> boolean_ok(*t),
        r matches Ok(a) ==> {
            &&& a.wf()
            &&& a.dtype == *dt
            &&& a.values.length as int == t.length as int
            &&& a.valids() =~= tree_valids(*t)
            &&& a.values.view() =~= tree_bits(*t)
        },
{
    if !check_fields(t) {
        return Err(ArrowError::FieldOutOfRange);
    }
    let offset = t.offset();
    let len = t.len();
    let validity = match import_validity(t, offset, len) {
        Ok(v) => v,
        Err(e) => {
            return Err(e);
        },
    };
    let values = match create_bitmap(t, 1, offset, len) {
        Ok(b) => b,
        Err(e) => {
            return Err(e);
        },
    };
    let a = crate::array::BooleanArray { dtype: crate::dtype::dtype_clone(dt), values, validity };
    proof {
        assert(a.values.view() =~= tree_bits(*t));
        assert(a.valids() =~= tree_valids(*t));
    }
    Ok(a)
}

/// Reconstructs a null-only array: only the length field is read.
pub fn import_null(t: &ArrowArray, dt: &DataType) -> (r: Result<
    crate::array::NullArray,
    ArrowError,
>)
    requires
        dt.wf(),
        *dt is Null,
    ensures
        r is Ok <==> fields_ok(*t),
        r matches Ok(a) ==> a.wf() && a.dtype == *dt && a.length as int == t.length as int,
{
    if !check_fields(t) {
        return Err(ArrowError::FieldOutOfRange);
    }
    let len = t.len();
    Ok(crate::array::NullArray { dtype: crate::dtype::dtype_clone(dt), length: len })
}

/// The raw view descriptors of a view-encoded struct (buffer 1).
pub open spec fn tree_views(t: ArrowArray) -> Seq<u128> {
    match the_buffer(t, 1).data {
        BufferData::U128(v) => v@,
        _ => Seq::empty(),
    }
}

/// The signed per-buffer byte lengths of the variadic data buffers,
/// published in the struct's last buffer.
pub open spec fn tree_variadic_lens(t: ArrowArray) -> Seq<int> {
    the_buffer(t, t.n_buffers - 1).data.ints()
}

/// The variadic data buffers of a view-encoded struct, each cut to
/// its published byte length.
pub open spec fn tree_bufs(t: ArrowArray) -> Seq<Seq<u8>> {
    Seq::new(
        (t.n_buffers - 3) as nat,
        |j: int| tree_bytes(t, 2 + j).take(tree_variadic_lens(t)[j]),
    )
}

/// Whether a view-encoded struct can be imported: usable fields,
/// reconstructible validity, a views buffer covering the window, a
/// length buffer publishing one usable byte length per variadic data
/// buffer, each such buffer at least that long, and every view of the
/// window prefix consistent with those buffers.
pub open spec fn binview_ok(t: ArrowArray) -> bool {
    &&& fields_ok(t)
    &&& validity_ok(t)
    &&& 3 <= t.n_buffers
    &&& buffer_ok(t, 1)
    &&& the_buffer(t, 1).data is U128
    &&& t.offset + t.length <= tree_views(t).len()
    &&& buffer_ok(t, t.n_buffers - 1)
    &&& the_buffer(t, t.n_buffers - 1).data is I64
    &&& t.n_buffers - 3 <= tree_variadic_lens(t).len()
    &&& forall|j: int|
        0 <= j < t.n_buffers - 3 ==> 0 <= (#[trigger] tree_variadic_lens(t)[j]) <= usize::MAX
    &&& forall|j: int| 2 <= j < t.n_buffers - 1 ==> #[trigger] buffer_ok(t, j)
    &&& forall|j: int| 2 <= j < t.n_buffers - 1 ==> (#[trigger] the_buffer(t, j).data) is U8
    &&& forall|j: int|
        2 <= j < t.n_buffers - 1 ==> tree_variadic_lens(t)[j - 2] <= (#[trigger] the_buffer(
            t,
            j,
        ).data).spec_len()
    &&& forall|i: int|
        0 <= i < t.offset + t.length ==> crate::binview::view_ok(
            #[trigger] tree_views(t)[i],
            tree_bufs(t),
        )
}

/// The byte strings a view-encoded struct describes.
pub open spec fn tree_view_strings(t: ArrowArray) -> Seq<Seq<u8>> {
    Seq::new(
        t.length as nat,
        |i: int| crate::binview::view_bytes(tree_views(t)[t.offset + i], tree_bufs(t)),
    )
}

/// Reconstructs a view-encoded byte-string array: views from buffer
/// 1 (with the usual alignment fallback), the variadic data buffers
/// from the middle slots, their byte lengths from the last buffer.
#[verifier::rlimit(60)]
pub fn import_binview(t: &ArrowArray, dt: &DataType) -> (r: Result<
    crate::binview::BinViewArray,
    ArrowError,
>)
    requires
        dt.wf(),
        dt.physical() == PhysicalType::BinaryView || dt.physical() == PhysicalType::Utf8View,
    ensures
        r is Ok <==> binview_ok(*t),
        r matches Ok(a) ==> {
            &&& a.wf()
            &&& a.dtype == *dt
            &&& a.length as int == t.length as int
            &&& a.valids() =~= tree_valids(*t)
            &&& a.strings() =~~= tree_view_strings(*t)
        },
{
    if !check_fields(t) {
        return Err(ArrowError::FieldOutOfRange);
    }
    let offset = t.offset();
    let len = t.len();
    let validity = match import_validity(t, offset, len) {
        Ok(v) => v,
        Err(e) => {
            return Err(e);
        },
    };
    let n_buffers = t.n_buffers as usize;
    if n_buffers < 3 {
        return Err(ArrowError::BufferIndexOut { index: 2, n_buffers });
    }
    let k = n_buffers - 3;
    let lens: &Vec<i64> = match get_buffer(t, n_buffers - 1) {
        Ok(fb) => match &fb.data {
            BufferData::I64(lv) => lv,
            _ => {
                return Err(ArrowError::WrongBufferKind { index: n_buffers - 1 });
            },
        },
        Err(e) => {
            return Err(e);
        },
    };
    proof {
        assert(tree_variadic_lens(*t).len() == lens@.len());
    }
    if lens.len() < k {
        return Err(
            ArrowError::BufferTooSmall { index: n_buffers - 1, need: k, have: lens.len() },
        );
    }
    let mut data_buffers: Vec<Vec<u8>> = Vec::new();
    let mut j: usize = 0;
    while j < k
        invariant
            fields_ok(*t),
            k == t.n_buffers - 3,
            k <= lens@.len(),
            Some(*lens) == (match the_buffer(*t, t.n_buffers - 1).data {
                BufferData::I64(lv) => Some(lv),
                _ => None::<Vec<i64>>,
            }),
            j <= k,
            data_buffers@.len() == j,
            forall|x: int| 0 <= x < j ==> 0 <= (#[trigger] tree_variadic_lens(*t)[x]) <= usize::MAX,
            forall|y: int| 2 <= y < 2 + j ==> #[trigger] buffer_ok(*t, y),
            forall|y: int| 2 <= y < 2 + j ==> (#[trigger] the_buffer(*t, y).data) is U8,
            forall|y: int|
                2 <= y < 2 + j ==> tree_variadic_lens(*t)[y - 2] <= (#[trigger] the_buffer(
                    *t,
                    y,
                ).data).spec_len(),
            forall|x: int|
                0 <= x < j ==> (#[trigger] data_buffers@[x]@) == tree_bytes(*t, 2 + x).take(
                    tree_variadic_lens(*t)[x],
                ),
        decreases k - j,
    {
        let ln = lens[j];
        proof {
            assert(tree_variadic_lens(*t)[j as int] == ln as int);
        }
        if ln < 0 || (ln as u128) > (usize::MAX as u128) {
            return Err(ArrowError::LengthOverflow);
        }
        let lnu = ln as usize;
        let fb = match get_buffer(t, 2 + j) {
            Ok(fb) => fb,
            Err(e) => {
                return Err(e);
            },
        };
        match &fb.data {
            BufferData::U8(bytes) => {
                if bytes.len() < lnu {
                    return Err(
                        ArrowError::BufferTooSmall { index: 2 + j, need: lnu, have: bytes.len() },
                    );
                }
                data_buffers.push(copy_prefix(bytes, lnu));
            },
            _ => {
                return Err(ArrowError::WrongBufferKind { index: 2 + j });
            },
        }
        j = j + 1;
    }
    let fb1 = match get_buffer(t, 1) {
        Ok(fb) => fb,
        Err(e) => {
            return Err(e);
        },
    };
    let addr = fb1.addr;
    let vv: &Vec<u128> = match &fb1.data {
        BufferData::U128(v) => v,
        _ => {
            return Err(ArrowError::WrongBufferKind { index: 1 });
        },
    };
    proof {
        assert(vv@ == tree_views(*t));
    }
    if vv.len() < offset + len {
        return Err(
            ArrowError::BufferTooSmall { index: 1, need: offset + len, have: vv.len() },
        );
    }
    proof {
        assert(Seq::new(data_buffers@.len(), |x: int| data_buffers@[x]@) =~~= tree_bufs(*t));
    }
    let ghost exec_bufs = Seq::new(data_buffers@.len(), |x: int| data_buffers@[x]@);
    if !crate::binview::check_views(vv, offset + len, &data_buffers) {
        proof {
            if binview_ok(*t) {
                assert forall|i: int| 0 <= i < offset + len implies crate::binview::view_ok(
                    #[trigger] vv@[i],
                    exec_bufs,
                ) by {
                    assert(crate::binview::view_ok(tree_views(*t)[i], tree_bufs(*t)));
                }
                assert(false);
            }
        }
        return Err(ArrowError::MalformedViews);
    }
    proof {
        assert forall|i: int| 0 <= i < offset + len implies crate::binview::view_ok(
            #[trigger] tree_views(*t)[i],
            tree_bufs(*t),
        ) by {
            assert(crate::binview::view_ok(vv@[i], exec_bufs));
        }
    }
    let aligned = addr % 16 == 0;
    let (views, win): (Vec<u128>, usize) = if aligned {
        (copy_prefix(vv, offset + len), offset)
    } else {
        (copy_range(vv, offset, len), 0)
    };
    let a = crate::binview::BinViewArray {
        dtype: crate::dtype::dtype_clone(dt),
        views,
        data_buffers,
        offset: win,
        length: len,
        validity,
    };
    proof {
        assert(a.bufs() =~~= tree_bufs(*t));
        assert forall|i: int| 0 <= i < a.views@.len() implies crate::binview::view_ok(
            #[trigger] a.views@[i],
            a.bufs(),
        ) by {
            if aligned {
                assert(a.views@[i] == tree_views(*t)[i]);
            } else {
                assert(a.views@[i] == tree_views(*t)[offset + i]);
            }
        }
        assert forall|x: int| 0 <= x < a.data_buffers@.len() implies (
        #[trigger] a.data_buffers@[x]@.len()) <= i64::MAX by {
            assert(a.data_buffers@[x]@ == tree_bytes(*t, 2 + x).take(tree_variadic_lens(*t)[x]));
        }
        assert(a.wf());
        assert forall|i: int| 0 <= i < len implies a.strings()[i] == tree_view_strings(*t)[i] by {
            assert(a.views@[win + i] == tree_views(*t)[offset + i]);
        }
        assert(a.strings() =~~= tree_view_strings(*t));
        assert(a.valids() =~= tree_valids(*t));
    }
    Ok(a)
}

/// One node of a child list is never larger than the whole list.
pub proof fn lemma_kids_size_at(s: Seq<Option<Box<ArrowArray>>>, i: int)
    requires
        0 <= i < s.len(),
    ensures
        (match s[i] {
            Some(b) => crate::abi::struct_size(*b),
            None => 0nat,
        }) <= crate::abi::kids_size(s),
    decreases s.len(),
{
    if i < s.len() - 1 {
        lemma_kids_size_at(s.drop_last(), i);
        assert(s.drop_last()[i] == s[i]);
    }
}

/// A fetchable child is a strictly smaller subtree.
pub proof fn lemma_child_size(t: ArrowArray, i: int)
    requires
        0 <= i,
        child_ok(t, i),
    ensures
        crate::abi::struct_size(the_child(t, i)) < crate::abi::struct_size(t),
{
    let cs = t.children.unwrap()@;
    lemma_kids_size_at(cs, i);
}

/// Whether the key window of a dictionary struct leaves every key
/// unread (all null) or within the pool length.
pub open spec fn dict_keys_admissible(t: ArrowArray, pool_len: int) -> bool {
    crate::bitmap::count_false(tree_valids(t)) == t.length || (forall|i: int|
        0 <= i < t.length ==> 0 <= (#[trigger] window_ints(t, 1)[i]) < pool_len)
}

/// Whether the keys buffer of a dictionary struct suits key tag
/// `it`; a window of zero slots needs no buffer.
pub open spec fn keys_buffer_ok(t: ArrowArray, it: crate::dtype::IntegerType) -> bool {
    t.offset + t.length == 0 || match it {
        crate::dtype::IntegerType::Int8 => data_buffer_ok::<i8>(t, 1, t.offset + t.length),
        crate::dtype::IntegerType::Int16 => data_buffer_ok::<i16>(t, 1, t.offset + t.length),
        crate::dtype::IntegerType::Int32 => data_buffer_ok::<i32>(t, 1, t.offset + t.length),
        crate::dtype::IntegerType::Int64 => data_buffer_ok::<i64>(t, 1, t.offset + t.length),
        crate::dtype::IntegerType::UInt8 => data_buffer_ok::<u8>(t, 1, t.offset + t.length),
        crate::dtype::IntegerType::UInt16 => data_buffer_ok::<u16>(t, 1, t.offset + t.length),
        crate::dtype::IntegerType::UInt32 => data_buffer_ok::<u32>(t, 1, t.offset + t.length),
        crate::dtype::IntegerType::UInt64 => data_buffer_ok::<u64>(t, 1, t.offset + t.length),
    }
}

/// Whether the importer accepts the struct tree `t` under descriptor
/// `dt`: this predicate states exactly the checks the import path
/// performs, type by type.
pub open spec fn tree_ok(t: ArrowArray, dt: DataType) -> bool
    decreases t,
{
    match dt.physical() {
        PhysicalType::Null => fields_ok(t),
        PhysicalType::Boolean => boolean_ok(t),
        PhysicalType::Primitive(it) => fields_ok(t) && validity_ok(t) && keys_buffer_ok(t, it),
        PhysicalType::Utf8 => binary_ok::<i32>(t),
        PhysicalType::Binary => binary_ok::<i32>(t),
        PhysicalType::LargeUtf8 => binary_ok::<i64>(t),
        PhysicalType::LargeBinary => binary_ok::<i64>(t),
        PhysicalType::FixedSizeBinary => match dt {
            DataType::FixedSizeBinary(s) => fixed_binary_ok(t, s as int),
            _ => false,
        },
        PhysicalType::List => match dt {
            DataType::List(inner) => {
                &&& fields_ok(t)
                &&& validity_ok(t)
                &&& offsets_buffer_ok::<i32>(t, 1)
                &&& child_ok(t, 0)
                &&& match t.children {
                    Some(cs) => cs@.len() > 0 && match cs@[0] {
                        Some(b) => tree_ok(*b, *inner) && the_buffer(t, 1).data.ints()[t.offset
                            + t.length] <= (*b).length,
                        None => false,
                    },
                    None => false,
                }
            },
            _ => false,
        },
        PhysicalType::MapList => match dt {
            DataType::MapList(inner, _) => {
                &&& fields_ok(t)
                &&& validity_ok(t)
                &&& offsets_buffer_ok::<i32>(t, 1)
                &&& child_ok(t, 0)
                &&& match t.children {
                    Some(cs) => cs@.len() > 0 && match cs@[0] {
                        Some(b) => tree_ok(*b, *inner) && the_buffer(t, 1).data.ints()[t.offset
                            + t.length] <= (*b).length,
                        None => false,
                    },
                    None => false,
                }
            },
            _ => false,
        },
        PhysicalType::LargeList => match dt {
            DataType::LargeList(inner) => {
                &&& fields_ok(t)
                &&& validity_ok(t)
                &&& offsets_buffer_ok::<i64>(t, 1)
                &&& child_ok(t, 0)
                &&& match t.children {
                    Some(cs) => cs@.len() > 0 && match cs@[0] {
                        Some(b) => tree_ok(*b, *inner) && the_buffer(t, 1).data.ints()[t.offset
                            + t.length] <= (*b).length,
                        None => false,
                    },
                    None => false,
                }
            },
            _ => false,
        },
        PhysicalType::FixedSizeList => match dt {
            DataType::FixedSizeList(inner, s) => {
                &&& fields_ok(t)
                &&& validity_ok(t)
                &&& s * (t.offset + t.length) <= usize::MAX
                &&& s * (t.offset + t.length) <= i64::MAX
                &&& child_ok(t, 0)
                &&& match t.children {
                    Some(cs) => cs@.len() > 0 && match cs@[0] {
                        Some(b) => tree_ok(*b, *inner) && s * (t.offset + t.length)
                            <= (*b).length,
                        None => false,
                    },
                    None => false,
                }
            },
            _ => false,
        },
        PhysicalType::BinaryView => binview_ok(t),
        PhysicalType::Utf8View => binview_ok(t),
        PhysicalType::Dictionary(it) => match dt {
            DataType::Dictionary(_, inner, _) => {
                &&& fields_ok(t)
                &&& validity_ok(t)
                &&& keys_buffer_ok(t, it)
                &&& match t.dictionary {
                    Some(d) => tree_ok(*d, *inner) && dict_keys_admissible(t, (*d).length as int),
                    None => false,
                }
            },
            _ => false,
        },
    }
}

/// The logical content that the importer reconstructs from an
/// accepted struct tree `t` under descriptor `dt`, cell by cell.
pub open spec fn tree_cells(t: ArrowArray, dt: DataType) -> Seq<Cell>
    decreases t,
{
    match dt.physical() {
        PhysicalType::Null => Seq::new(t.length as nat, |i: int| Cell::Missing),
        PhysicalType::Boolean => Seq::new(
            t.length as nat,
            |i: int| if !tree_valids(t)[i] {
                Cell::Missing
            } else {
                Cell::Flag(tree_bits(t)[i])
            },
        ),
        PhysicalType::Primitive(it) => crate::array::prim_cells(
            window_ints(t, 1),
            tree_valids(t),
            t.length as nat,
        ),
        PhysicalType::Utf8 | PhysicalType::Binary | PhysicalType::LargeUtf8
            | PhysicalType::LargeBinary => Seq::new(
            t.length as nat,
            |i: int| if !tree_valids(t)[i] {
                Cell::Missing
            } else {
                Cell::Chunk(tree_strings(t)[i])
            },
        ),
        PhysicalType::FixedSizeBinary => match dt {
            DataType::FixedSizeBinary(s) => Seq::new(
                t.length as nat,
                |i: int| if !tree_valids(t)[i] {
                    Cell::Missing
                } else {
                    Cell::Chunk(tree_fixed_strings(t, s as int)[i])
                },
            ),
            _ => Seq::empty(),
        },
        PhysicalType::MapList => match dt {
            DataType::MapList(inner, _) => match t.children {
                Some(cs) => if cs@.len() > 0 {
                    match cs@[0] {
                        Some(b) => list_node_cells(t, tree_cells(*b, *inner)),
                        None => Seq::empty(),
                    }
                } else {
                    Seq::empty()
                },
                None => Seq::empty(),
            },
            _ => Seq::empty(),
        },
        PhysicalType::List | PhysicalType::LargeList => match dt {
            DataType::List(inner) => match t.children {
                Some(cs) => if cs@.len() > 0 {
                    match cs@[0] {
                        Some(b) => list_node_cells(t, tree_cells(*b, *inner)),
                        None => Seq::empty(),
                    }
                } else {
                    Seq::empty()
                },
                None => Seq::empty(),
            },
            DataType::LargeList(inner) => match t.children {
                Some(cs) => if cs@.len() > 0 {
                    match cs@[0] {
                        Some(b) => list_node_cells(t, tree_cells(*b, *inner)),
                        None => Seq::empty(),
                    }
                } else {
                    Seq::empty()
                },
                None => Seq::empty(),
            },
            _ => Seq::empty(),
        },
        PhysicalType::FixedSizeList => match dt {
            DataType::FixedSizeList(inner, s) => match t.children {
                Some(cs) => if cs@.len() > 0 {
                    match cs@[0] {
                        Some(b) => fixed_node_cells(t, s as int, tree_cells(*b, *inner)),
                        None => Seq::empty(),
                    }
                } else {
                    Seq::empty()
                },
                None => Seq::empty(),
            },
            _ => Seq::empty(),
        },
        PhysicalType::BinaryView | PhysicalType::Utf8View => Seq::new(
            t.length as nat,
            |i: int| if !tree_valids(t)[i] {
                Cell::Missing
            } else {
                Cell::Chunk(tree_view_strings(t)[i])
            },
        ),
        PhysicalType::Dictionary(it) => match dt {
            DataType::Dictionary(_, inner, _) => match t.dictionary {
                Some(d) => crate::dictionary::dict_resolve(
                    window_ints(t, 1),
                    tree_valids(t),
                    t.length as nat,
                    tree_cells(*d, *inner),
                ),
                None => Seq::empty(),
            },
            _ => Seq::empty(),
        },
    }
}

/// The cells of a list node over its child's cells.
pub open spec fn list_node_cells(t: ArrowArray, child_cells: Seq<Cell>) -> Seq<Cell> {
    Seq::new(
        t.length as nat,
        |i: int| if !tree_valids(t)[i] {
            Cell::Missing
        } else {
            Cell::Rows(
                child_cells.subrange(
                    the_buffer(t, 1).data.ints()[t.offset + i],
                    the_buffer(t, 1).data.ints()[t.offset + i + 1],
                ),
            )
        },
    )
}

/// The cells of a fixed-size list node over its child's cells.
pub open spec fn fixed_node_cells(t: ArrowArray, size: int, child_cells: Seq<Cell>) -> Seq<Cell> {
    Seq::new(
        t.length as nat,
        |i: int| if !tree_valids(t)[i] {
            Cell::Missing
        } else {
            Cell::Rows(child_cells.subrange(size * (t.offset + i), size * (t.offset + i + 1)))
        },
    )
}

/// Builds a list array over an already-imported child.
pub fn import_list<O: Offset>(t: &ArrowArray, dt: &DataType, child: Array) -> (r: Result<
    crate::list::ListArray<O>,
    ArrowError,
>)
    requires
        fields_ok(*t),
        dt.wf(),
        O::list_phys(dt.physical()),
        child.ok(),
        crate::dtype::spec_get_child(*dt) == Some(child.spec_dtype()),
    ensures
        r is Ok <==> validity_ok(*t) && offsets_buffer_ok::<O>(*t, 1) && the_buffer(
            *t,
            1,
        ).data.ints()[t.offset + t.length] <= child.spec_len(),
        r matches Ok(a) ==> {
            &&& a.wf()
            &&& *a.child == child
            &&& a.dtype == *dt
            &&& a.length as int == t.length as int
            &&& a.valids() =~= tree_valids(*t)
            &&& Seq::new((a.length + 1) as nat, |i: int| a.offsets@[a.offset + i].as_int())
                =~= window_bounds(*t, 1)
        },
{
    let offset = t.offset();
    let len = t.len();
    let validity = match import_validity(t, offset, len) {
        Ok(v) => v,
        Err(e) => {
            return Err(e);
        },
    };
    let (offsets, win, closing) = match import_offsets::<O>(t, 1, offset, len) {
        Ok(p) => p,
        Err(e) => {
            return Err(e);
        },
    };
    if closing > child.len() {
        return Err(ArrowError::MalformedOffsets);
    }
    let a = crate::list::ListArray {
        dtype: crate::dtype::dtype_clone(dt),
        offsets,
        child: Box::new(child),
        offset: win,
        length: len,
        validity,
    };
    proof {
        crate::varbin::lemma_offsets_mono(a.offsets@, a.offset + a.length, a.offsets@.len() - 1);
        assert(a.wf());
        assert(a.valids() =~= tree_valids(*t));
        assert(Seq::new((a.length + 1) as nat, |i: int| a.offsets@[a.offset + i].as_int())
            =~= window_bounds(*t, 1));
    }
    Ok(a)
}

/// Builds a fixed-size list array over an already-imported child.
pub fn import_fixed_list(t: &ArrowArray, dt: &DataType, size: usize, child: Array) -> (r: Result<
    crate::fixed::FixedSizeListArray,
    ArrowError,
>)
    requires
        fields_ok(*t),
        dt.wf(),
        (match *dt {
            DataType::FixedSizeList(_, s) => s == size,
            _ => false,
        }),
        child.ok(),
        crate::dtype::spec_get_child(*dt) == Some(child.spec_dtype()),
    ensures
        r is Ok <==> validity_ok(*t) && size * (t.offset + t.length) <= usize::MAX && size * (
        t.offset + t.length) <= i64::MAX && size * (t.offset + t.length) <= child.spec_len(),
        r matches Ok(a) ==> {
            &&& a.wf()
            &&& *a.child == child
            &&& a.dtype == *dt
            &&& a.length as int == t.length as int
            &&& a.offset as int == t.offset as int
            &&& a.valids() =~= tree_valids(*t)
        },
{
    let offset = t.offset();
    let len = t.len();
    let validity = match import_validity(t, offset, len) {
        Ok(v) => v,
        Err(e) => {
            return Err(e);
        },
    };
    let total = match size.checked_mul(offset + len) {
        Some(x) => x,
        None => {
            return Err(ArrowError::LengthOverflow);
        },
    };
    if (total as u128) > (i64::MAX as u128) {
        return Err(ArrowError::LengthOverflow);
    }
    if total > child.len() {
        return Err(ArrowError::MalformedOffsets);
    }
    let a = crate::fixed::FixedSizeListArray {
        dtype: crate::dtype::dtype_clone(dt),
        child: Box::new(child),
        offset,
        length: len,
        validity,
    };
    proof {
        assert(a.size() == size as int);
        assert(a.wf()) by {
            assert(a.size() * (a.offset + a.length) == size * (offset + len));
        }
        assert(a.valids() =~= tree_valids(*t));
    }
    Ok(a)
}

/// Builds a dictionary array over an already-imported value pool:
/// the keys are read from buffer 1 of the struct itself, and the
/// bounds invariant is established by the checked constructor.
pub fn finish_dict<K: DictionaryKey>(t: &ArrowArray, dt: &DataType, pool: Array) -> (r: Result<
    DictionaryArray<K>,
    ArrowError,
>)
    requires
        fields_ok(*t),
        dt.wf(),
        pool.ok(),
        (match *dt {
            DataType::Dictionary(it, inner, _) => it == K::tag() && *inner == pool.spec_dtype(),
            _ => false,
        }),
    ensures
        r is Ok <==> validity_ok(*t) && (t.offset + t.length == 0 || data_buffer_ok::<K>(
            *t,
            1,
            t.offset + t.length,
        )) && dict_keys_admissible(*t, pool.spec_len() as int),
        r matches Ok(d) ==> {
            &&& d.ok()
            &&& d.dtype == *dt
            &&& d.keys.length as int == t.length as int
            &&& d.keys.valids() =~= tree_valids(*t)
            &&& d.keys.ints() =~= window_ints(*t, 1)
            &&& *d.values == pool
        },
{
    let offset = t.offset();
    let len = t.len();
    let keys = match create_buffer::<K>(t, 1, offset, len) {
        Ok(k) => k,
        Err(e) => {
            return Err(e);
        },
    };
    let ghost keys0 = keys;
    let ghost pool0 = pool;
    let r = DictionaryArray::<K>::try_new(crate::dtype::dtype_clone(dt), keys, Box::new(pool));
    match r {
        Ok(d) => {
            proof {
                assert(crate::bitmap::count_false(keys0.valids()) == crate::bitmap::count_false(
                    tree_valids(*t),
                ));
                assert(d.keys.ints() =~= window_ints(*t, 1));
                assert(d.keys.valids() =~= tree_valids(*t));
                if !(d.keys.spec_null_count() == d.keys.length) {
                    assert forall|i: int| 0 <= i < t.length implies 0 <= (#[trigger] window_ints(
                        *t,
                        1,
                    )[i]) < pool0.spec_len() as int by {
                        assert(keys0.ints()[i] == window_ints(*t, 1)[i]);
                    }
                }
            }
            Ok(d)
        },
        Err(e) => {
            proof {
                assert(crate::bitmap::count_false(keys0.valids()) == crate::bitmap::count_false(
                    tree_valids(*t),
                ));
                if dict_keys_admissible(*t, pool0.spec_len() as int) {
                    if !(keys0.spec_null_count() == keys0.length) {
                        assert forall|i: int| 0 <= i < keys0.length implies 0 <= (
                        #[trigger] keys0.ints()[i]) < pool0.spec_len() by {
                            assert(keys0.ints()[i] == window_ints(*t, 1)[i]);
                        }
                    }
                    assert(false);
                }
            }
            Err(e)
        },
    }
}

/// Reconstructs a native array from a foreign struct tree under the
/// given descriptor, walking children and the dictionary depth first.
/// The result's content is exactly what the tree's buffers describe,
/// and an input is accepted exactly when the acceptance predicate
/// holds of it.
pub fn import_node(t: &ArrowArray, dt: &DataType) -> (r: Result<Array, ArrowError>)
    requires
        dt.wf(),
    ensures
        r is Ok <==> tree_ok(*t, *dt),
        r matches Ok(a) ==> {
            &&& a.ok()
            &&& a.spec_dtype() == *dt
            &&& a.spec_len() as int == t.length as int
            &&& a.cells() =~~= tree_cells(*t, *dt)
            &&& (!(*dt is Null) ==> a.valids() =~= tree_valids(*t))
            &&& ((*dt is Null) ==> a.valids() =~= Seq::new(t.length as nat, |i: int| false))
        },
    decreases crate::abi::struct_size(*t),
{
    match dt.to_physical_type() {
        PhysicalType::Null => match import_null(t, dt) {
            Ok(na) => {
                let a = Array::Null(na);
                proof {
                    assert(a.cells() =~~= tree_cells(*t, *dt));
                    assert(a.valids() =~= Seq::new(t.length as nat, |i: int| false));
                }
                Ok(a)
            },
            Err(e) => Err(e),
        },
        PhysicalType::Boolean => match import_boolean(t, dt) {
            Ok(ba) => {
                let a = Array::Boolean(ba);
                proof {
                    assert forall|i: int| 0 <= i < t.length implies a.cells()[i] == tree_cells(
                        *t,
                        *dt,
                    )[i] by {
                        assert(ba.valids()[i] == tree_valids(*t)[i]);
                        assert(ba.values.view()[i] == tree_bits(*t)[i]);
                    }
                    assert(a.cells() =~~= tree_cells(*t, *dt));
                }
                Ok(a)
            },
            Err(e) => Err(e),
        },
        PhysicalType::Primitive(it) => {
            if !check_fields(t) {
                return Err(ArrowError::FieldOutOfRange);
            }
            let offset = t.offset();
            let len = t.len();
            match it {
                crate::dtype::IntegerType::Int8 => match create_buffer::<i8>(t, 1, offset, len) {
                    Ok(pa) => {
                        let a = Array::Primitive(crate::array::AnyPrimitive::I8(pa));
                        proof {
                            assert(a.cells() =~~= tree_cells(*t, *dt));
                        }
                        Ok(a)
                    },
                    Err(e) => Err(e),
                },
                crate::dtype::IntegerType::Int16 => match create_buffer::<i16>(t, 1, offset, len) {
                    Ok(pa) => {
                        let a = Array::Primitive(crate::array::AnyPrimitive::I16(pa));
                        proof {
                            assert(a.cells() =~~= tree_cells(*t, *dt));
                        }
                        Ok(a)
                    },
                    Err(e) => Err(e),
                },
                crate::dtype::IntegerType::Int32 => match create_buffer::<i32>(t, 1, offset, len) {
                    Ok(pa) => {
                        let a = Array::Primitive(crate::array::AnyPrimitive::I32(pa));
                        proof {
                            assert(a.cells() =~~= tree_cells(*t, *dt));
                        }
                        Ok(a)
                    },
                    Err(e) => Err(e),
                },
                crate::dtype::IntegerType::Int64 => match create_buffer::<i64>(t, 1, offset, len) {
                    Ok(pa) => {
                        let a = Array::Primitive(crate::array::AnyPrimitive::I64(pa));
                        proof {
                            assert(a.cells() =~~= tree_cells(*t, *dt));
                        }
                        Ok(a)
                    },
                    Err(e) => Err(e),
                },
                crate::dtype::IntegerType::UInt8 => match create_buffer::<u8>(t, 1, offset, len) {
                    Ok(pa) => {
                        let a = Array::Primitive(crate::array::AnyPrimitive::U8(pa));
                        proof {
                            assert(a.cells() =~~= tree_cells(*t, *dt));
                        }
                        Ok(a)
                    },
                    Err(e) => Err(e),
                },
                crate::dtype::IntegerType::UInt16 => match create_buffer::<u16>(t, 1, offset, len) {
                    Ok(pa) => {
                        let a = Array::Primitive(crate::array::AnyPrimitive::U16(pa));
                        proof {
                            assert(a.cells() =~~= tree_cells(*t, *dt));
                        }
                        Ok(a)
                    },
                    Err(e) => Err(e),
                },
                crate::dtype::IntegerType::UInt32 => match create_buffer::<u32>(t, 1, offset, len) {
                    Ok(pa) => {
                        let a = Array::Primitive(crate::array::AnyPrimitive::U32(pa));
                        proof {
                            assert(a.cells() =~~= tree_cells(*t, *dt));
                        }
                        Ok(a)
                    },
                    Err(e) => Err(e),
                },
                crate::dtype::IntegerType::UInt64 => match create_buffer::<u64>(t, 1, offset, len) {
                    Ok(pa) => {
                        let a = Array::Primitive(crate::array::AnyPrimitive::U64(pa));
                        proof {
                            assert(a.cells() =~~= tree_cells(*t, *dt));
                        }
                        Ok(a)
                    },
                    Err(e) => Err(e),
                },
            }
        },
        PhysicalType::Utf8 | PhysicalType::Binary => match import_binary::<i32>(t, dt) {
            Ok(ba) => {
                let a = if matches!(dt, DataType::Utf8) {
                    Array::Binary(ba)
                } else {
                    Array::Binary(ba)
                };
                proof {
                    assert forall|i: int| 0 <= i < t.length implies a.cells()[i] == tree_cells(
                        *t,
                        *dt,
                    )[i] by {
                        let bb = (match a {
                            Array::Binary(x) => x,
                            _ => arbitrary(),
                        });
                        assert(bb.valids()[i] == tree_valids(*t)[i]);
                        assert(bb.strings()[i] == tree_strings(*t)[i]);
                    }
                    assert(a.cells() =~~= tree_cells(*t, *dt));
                }
                Ok(a)
            },
            Err(e) => Err(e),
        },
        PhysicalType::LargeUtf8 | PhysicalType::LargeBinary => match import_binary::<i64>(t, dt) {
            Ok(ba) => {
                let a = Array::LargeBinary(ba);
                proof {
                    assert forall|i: int| 0 <= i < t.length implies a.cells()[i] == tree_cells(
                        *t,
                        *dt,
                    )[i] by {
                        let bb = (match a {
                            Array::LargeBinary(x) => x,
                            _ => arbitrary(),
                        });
                        assert(bb.valids()[i] == tree_valids(*t)[i]);
                        assert(bb.strings()[i] == tree_strings(*t)[i]);
                    }
                    assert(a.cells() =~~= tree_cells(*t, *dt));
                }
                Ok(a)
            },
            Err(e) => Err(e),
        },
        PhysicalType::FixedSizeBinary => {
            let size = match dt {
                DataType::FixedSizeBinary(s) => *s,
                _ => {
                    return Err(ArrowError::FieldOutOfRange);
                },
            };
            match import_fixed_binary(t, dt, size) {
                Ok(fa) => {
                    let a = Array::FixedSizeBinary(fa);
                    proof {
                        assert forall|i: int| 0 <= i < t.length implies a.cells()[i] == tree_cells(
                            *t,
                            *dt,
                        )[i] by {
                            assert(fa.valids()[i] == tree_valids(*t)[i]);
                            assert(fa.strings()[i] == tree_fixed_strings(*t, size as int)[i]);
                        }
                        assert(a.cells() =~~= tree_cells(*t, *dt));
                    }
                    Ok(a)
                },
                Err(e) => Err(e),
            }
        },
        PhysicalType::List => {
            if !check_fields(t) {
                return Err(ArrowError::FieldOutOfRange);
            }
            let inner = match crate::dtype::get_child(dt, 0) {
                Ok(d) => d,
                Err(e) => {
                    return Err(e);
                },
            };
            let cstruct = match get_child_struct(t, 0) {
                Ok(c) => c,
                Err(e) => {
                    return Err(e);
                },
            };
            proof {
                lemma_child_size(*t, 0);
                assert(*t.children.unwrap()@[0].unwrap() == the_child(*t, 0));
                assert(inner.wf());
            }
            let child = match import_node(cstruct, &inner) {
                Ok(c) => c,
                Err(e) => {
                    return Err(e);
                },
            };
            match import_list::<i32>(t, dt, child) {
                Ok(la) => {
                    let a = Array::List(la);
                    proof {
                        let ghost tc = tree_cells(the_child(*t, 0), inner);
                        assert forall|i: int| 0 <= i < t.length implies a.cells()[i]
                            == tree_cells(*t, *dt)[i] by {
                            assert(la.valids()[i] == tree_valids(*t)[i]);
                            assert(la.bound(i) == window_bounds(*t, 1)[i]);
                            assert(la.bound(i + 1) == window_bounds(*t, 1)[i + 1]);
                        }
                        assert(a.cells() =~~= tree_cells(*t, *dt));
                    }
                    Ok(a)
                },
                Err(e) => Err(e),
            }
        },
        PhysicalType::MapList => {
            if !check_fields(t) {
                return Err(ArrowError::FieldOutOfRange);
            }
            let inner = match crate::dtype::get_child(dt, 0) {
                Ok(d) => d,
                Err(e) => {
                    return Err(e);
                },
            };
            let cstruct = match get_child_struct(t, 0) {
                Ok(c) => c,
                Err(e) => {
                    return Err(e);
                },
            };
            proof {
                lemma_child_size(*t, 0);
                assert(*t.children.unwrap()@[0].unwrap() == the_child(*t, 0));
                assert(inner.wf());
            }
            let child = match import_node(cstruct, &inner) {
                Ok(c) => c,
                Err(e) => {
                    return Err(e);
                },
            };
            match import_list::<i32>(t, dt, child) {
                Ok(la) => {
                    let a = Array::MapList(la);
                    proof {
                        let ghost tc = tree_cells(the_child(*t, 0), inner);
                        assert forall|i: int| 0 <= i < t.length implies a.cells()[i]
                            == tree_cells(*t, *dt)[i] by {
                            assert(la.valids()[i] == tree_valids(*t)[i]);
                            assert(la.bound(i) == window_bounds(*t, 1)[i]);
                            assert(la.bound(i + 1) == window_bounds(*t, 1)[i + 1]);
                        }
                        assert(a.cells() =~~= tree_cells(*t, *dt));
                    }
                    Ok(a)
                },
                Err(e) => Err(e),
            }
        },
        PhysicalType::LargeList => {
            if !check_fields(t) {
                return Err(ArrowError::FieldOutOfRange);
            }
            let inner = match crate::dtype::get_child(dt, 0) {
                Ok(d) => d,
                Err(e) => {
                    return Err(e);
                },
            };
            let cstruct = match get_child_struct(t, 0) {
                Ok(c) => c,
                Err(e) => {
                    return Err(e);
                },
            };
            proof {
                lemma_child_size(*t, 0);
                assert(*t.children.unwrap()@[0].unwrap() == the_child(*t, 0));
                assert(inner.wf());
            }
            let child = match import_node(cstruct, &inner) {
                Ok(c) => c,
                Err(e) => {
                    return Err(e);
                },
            };
            match import_list::<i64>(t, dt, child) {
                Ok(la) => {
                    let a = Array::LargeList(la);
                    proof {
                        let ghost tc = tree_cells(the_child(*t, 0), inner);
                        assert forall|i: int| 0 <= i < t.length implies a.cells()[i]
                            == tree_cells(*t, *dt)[i] by {
                            assert(la.valids()[i] == tree_valids(*t)[i]);
                            assert(la.bound(i) == window_bounds(*t, 1)[i]);
                            assert(la.bound(i + 1) == window_bounds(*t, 1)[i + 1]);
                        }
                        assert(a.cells() =~~= tree_cells(*t, *dt));
                    }
                    Ok(a)
                },
                Err(e) => Err(e),
            }
        },
        PhysicalType::FixedSizeList => {
            if !check_fields(t) {
                return Err(ArrowError::FieldOutOfRange);
            }
            let size = match dt {
                DataType::FixedSizeList(_, s) => *s,
                _ => {
                    return Err(ArrowError::FieldOutOfRange);
                },
            };
            let inner = match crate::dtype::get_child(dt, 0) {
                Ok(d) => d,
                Err(e) => {
                    return Err(e);
                },
            };
            let cstruct = match get_child_struct(t, 0) {
                Ok(c) => c,
                Err(e) => {
                    return Err(e);
                },
            };
            proof {
                lemma_child_size(*t, 0);
                assert(*t.children.unwrap()@[0].unwrap() == the_child(*t, 0));
                assert(inner.wf());
            }
            let child = match import_node(cstruct, &inner) {
                Ok(c) => c,
                Err(e) => {
                    return Err(e);
                },
            };
            match import_fixed_list(t, dt, size, child) {
                Ok(fa) => {
                    let a = Array::FixedSizeList(fa);
                    proof {
                        assert forall|i: int| 0 <= i < t.length implies a.cells()[i]
                            == tree_cells(*t, *dt)[i] by {
                            assert(fa.valids()[i] == tree_valids(*t)[i]);
                        }
                        assert(a.cells() =~~= tree_cells(*t, *dt));
                    }
                    Ok(a)
                },
                Err(e) => Err(e),
            }
        },
        PhysicalType::BinaryView | PhysicalType::Utf8View => match import_binview(t, dt) {
            Ok(va) => {
                let a = Array::BinView(va);
                proof {
                    assert forall|i: int| 0 <= i < t.length implies a.cells()[i] =~~= tree_cells(
                        *t,
                        *dt,
                    )[i] by {
                        assert(va.valids()[i] == tree_valids(*t)[i]);
                        assert(va.strings()[i] =~~= tree_view_strings(*t)[i]);
                    }
                    assert(a.cells() =~~= tree_cells(*t, *dt));
                }
                Ok(a)
            },
            Err(e) => Err(e),
        },
        PhysicalType::Dictionary(it) => {
            if !check_fields(t) {
                return Err(ArrowError::FieldOutOfRange);
            }
            match &t.dictionary {
                None => Err(ArrowError::NullDictionary),
                Some(dstruct) => {
                    let inner: &DataType = match dt {
                        DataType::Dictionary(_, inner, _) => inner,
                        _ => {
                            return Err(ArrowError::FieldOutOfRange);
                        },
                    };
                    proof {
                        assert(crate::abi::struct_size(**dstruct) < crate::abi::struct_size(*t));
                        assert(inner.wf());
                    }
                    let pool = match import_node(dstruct, inner) {
                        Ok(p) => p,
                        Err(e) => {
                            return Err(e);
                        },
                    };
                    match it {
                        crate::dtype::IntegerType::Int8 => match finish_dict::<i8>(t, dt, pool) {
                            Ok(d) => {
                                let ghost dg = d;
                                let a = Array::Dictionary(crate::dictionary::AnyDictionary::S8(d));
                                proof {
                                    reveal_with_fuel(crate::array::Array::cells, 3);
                                    reveal_with_fuel(crate::array::Array::ok, 3);
                                    assert(a.ok());
                                    assert(dg.keys.ints() == window_ints(*t, 1));
                                    assert(dg.keys.valids() == tree_valids(*t));
                                    assert(dg.keys.length as nat == t.length as nat);
                                    assert(*dg.values == pool);
                                    assert(pool.cells() == tree_cells(
                                        *t.dictionary.unwrap(),
                                        *inner,
                                    ));
                                    assert(dg.values.cells() == tree_cells(
                                        *t.dictionary.unwrap(),
                                        *inner,
                                    ));
                                    assert(a.cells() == dg.cells());
                                    assert(dg.cells() == crate::dictionary::dict_resolve(
                                        dg.keys.ints(),
                                        dg.keys.valids(),
                                        dg.keys.length as nat,
                                        dg.values.cells(),
                                    ));
                                    assert(a.cells() =~~= tree_cells(*t, *dt));
                                    assert(a.valids() =~= tree_valids(*t));
                                }
                                Ok(a)
                            },
                            Err(e) => Err(e),
                        },
                        crate::dtype::IntegerType::Int16 => match finish_dict::<i16>(t, dt, pool) {
                            Ok(d) => {
                                let ghost dg = d;
                                let a = Array::Dictionary(crate::dictionary::AnyDictionary::S16(d));
                                proof {
                                    reveal_with_fuel(crate::array::Array::cells, 3);
                                    reveal_with_fuel(crate::array::Array::ok, 3);
                                    assert(a.ok());
                                    assert(dg.keys.ints() == window_ints(*t, 1));
                                    assert(dg.keys.valids() == tree_valids(*t));
                                    assert(dg.keys.length as nat == t.length as nat);
                                    assert(*dg.values == pool);
                                    assert(pool.cells() == tree_cells(
                                        *t.dictionary.unwrap(),
                                        *inner,
                                    ));
                                    assert(dg.values.cells() == tree_cells(
                                        *t.dictionary.unwrap(),
                                        *inner,
                                    ));
                                    assert(a.cells() == dg.cells());
                                    assert(dg.cells() == crate::dictionary::dict_resolve(
                                        dg.keys.ints(),
                                        dg.keys.valids(),
                                        dg.keys.length as nat,
                                        dg.values.cells(),
                                    ));
                                    assert(a.cells() =~~= tree_cells(*t, *dt));
                                    assert(a.valids() =~= tree_valids(*t));
                                }
                                Ok(a)
                            },
                            Err(e) => Err(e),
                        },
                        crate::dtype::IntegerType::Int32 => match finish_dict::<i32>(t, dt, pool) {
                            Ok(d) => {
                                let ghost dg = d;
                                let a = Array::Dictionary(crate::dictionary::AnyDictionary::S32(d));
                                proof {
                                    reveal_with_fuel(crate::array::Array::cells, 3);
                                    reveal_with_fuel(crate::array::Array::ok, 3);
                                    assert(a.ok());
                                    assert(dg.keys.ints() == window_ints(*t, 1));
                                    assert(dg.keys.valids() == tree_valids(*t));
                                    assert(dg.keys.length as nat == t.length as nat);
                                    assert(*dg.values == pool);
                                    assert(pool.cells() == tree_cells(
                                        *t.dictionary.unwrap(),
                                        *inner,
                                    ));
                                    assert(dg.values.cells() == tree_cells(
                                        *t.dictionary.unwrap(),
                                        *inner,
                                    ));
                                    assert(a.cells() == dg.cells());
                                    assert(dg.cells() == crate::dictionary::dict_resolve(
                                        dg.keys.ints(),
                                        dg.keys.valids(),
                                        dg.keys.length as nat,
                                        dg.values.cells(),
                                    ));
                                    assert(a.cells() =~~= tree_cells(*t, *dt));
                                    assert(a.valids() =~= tree_valids(*t));
                                }
                                Ok(a)
                            },
                            Err(e) => Err(e),
                        },
                        crate::dtype::IntegerType::Int64 => match finish_dict::<i64>(t, dt, pool) {
                            Ok(d) => {
                                let ghost dg = d;
                                let a = Array::Dictionary(crate::dictionary::AnyDictionary::S64(d));
                                proof {
                                    reveal_with_fuel(crate::array::Array::cells, 3);
                                    reveal_with_fuel(crate::array::Array::ok, 3);
                                    assert(a.ok());
                                    assert(dg.keys.ints() == window_ints(*t, 1));
                                    assert(dg.keys.valids() == tree_valids(*t));
                                    assert(dg.keys.length as nat == t.length as nat);
                                    assert(*dg.values == pool);
                                    assert(pool.cells() == tree_cells(
                                        *t.dictionary.unwrap(),
                                        *inner,
                                    ));
                                    assert(dg.values.cells() == tree_cells(
                                        *t.dictionary.unwrap(),
                                        *inner,
                                    ));
                                    assert(a.cells() == dg.cells());
                                    assert(dg.cells() == crate::dictionary::dict_resolve(
                                        dg.keys.ints(),
                                        dg.keys.valids(),
                                        dg.keys.length as nat,
                                        dg.values.cells(),
                                    ));
                                    assert(a.cells() =~~= tree_cells(*t, *dt));
                                    assert(a.valids() =~= tree_valids(*t));
                                }
                                Ok(a)
                            },
                            Err(e) => Err(e),
                        },
                        crate::dtype::IntegerType::UInt8 => match finish_dict::<u8>(t, dt, pool) {
                            Ok(d) => {
                                let ghost dg = d;
                                let a = Array::Dictionary(crate::dictionary::AnyDictionary::K8(d));
                                proof {
                                    reveal_with_fuel(crate::array::Array::cells, 3);
                                    reveal_with_fuel(crate::array::Array::ok, 3);
                                    assert(a.ok());
                                    assert(dg.keys.ints() == window_ints(*t, 1));
                                    assert(dg.keys.valids() == tree_valids(*t));
                                    assert(dg.keys.length as nat == t.length as nat);
                                    assert(*dg.values == pool);
                                    assert(pool.cells() == tree_cells(
                                        *t.dictionary.unwrap(),
                                        *inner,
                                    ));
                                    assert(dg.values.cells() == tree_cells(
                                        *t.dictionary.unwrap(),
                                        *inner,
                                    ));
                                    assert(a.cells() == dg.cells());
                                    assert(dg.cells() == crate::dictionary::dict_resolve(
                                        dg.keys.ints(),
                                        dg.keys.valids(),
                                        dg.keys.length as nat,
                                        dg.values.cells(),
                                    ));
                                    assert(a.cells() =~~= tree_cells(*t, *dt));
                                    assert(a.valids() =~= tree_valids(*t));
                                }
                                Ok(a)
                            },
                            Err(e) => Err(e),
                        },
                        crate::dtype::IntegerType::UInt16 => match finish_dict::<u16>(t, dt, pool) {
                            Ok(d) => {
                                let ghost dg = d;
                                let a = Array::Dictionary(crate::dictionary::AnyDictionary::K16(d));
                                proof {
                                    reveal_with_fuel(crate::array::Array::cells, 3);
                                    reveal_with_fuel(crate::array::Array::ok, 3);
                                    assert(a.ok());
                                    assert(dg.keys.ints() == window_ints(*t, 1));
                                    assert(dg.keys.valids() == tree_valids(*t));
                                    assert(dg.keys.length as nat == t.length as nat);
                                    assert(*dg.values == pool);
                                    assert(pool.cells() == tree_cells(
                                        *t.dictionary.unwrap(),
                                        *inner,
                                    ));
                                    assert(dg.values.cells() == tree_cells(
                                        *t.dictionary.unwrap(),
                                        *inner,
                                    ));
                                    assert(a.cells() == dg.cells());
                                    assert(dg.cells() == crate::dictionary::dict_resolve(
                                        dg.keys.ints(),
                                        dg.keys.valids(),
                                        dg.keys.length as nat,
                                        dg.values.cells(),
                                    ));
                                    assert(a.cells() =~~= tree_cells(*t, *dt));
                                    assert(a.valids() =~= tree_valids(*t));
                                }
                                Ok(a)
                            },
                            Err(e) => Err(e),
                        },
                        crate::dtype::IntegerType::UInt32 => match finish_dict::<u32>(t, dt, pool) {
                            Ok(d) => {
                                let ghost dg = d;
                                let a = Array::Dictionary(crate::dictionary::AnyDictionary::K32(d));
                                proof {
                                    reveal_with_fuel(crate::array::Array::cells, 3);
                                    reveal_with_fuel(crate::array::Array::ok, 3);
                                    assert(a.ok());
                                    assert(dg.keys.ints() == window_ints(*t, 1));
                                    assert(dg.keys.valids() == tree_valids(*t));
                                    assert(dg.keys.length as nat == t.length as nat);
                                    assert(*dg.values == pool);
                                    assert(pool.cells() == tree_cells(
                                        *t.dictionary.unwrap(),
                                        *inner,
                                    ));
                                    assert(dg.values.cells() == tree_cells(
                                        *t.dictionary.unwrap(),
                                        *inner,
                                    ));
                                    assert(a.cells() == dg.cells());
                                    assert(dg.cells() == crate::dictionary::dict_resolve(
                                        dg.keys.ints(),
                                        dg.keys.valids(),
                                        dg.keys.length as nat,
                                        dg.values.cells(),
                                    ));
                                    assert(a.cells() =~~= tree_cells(*t, *dt));
                                    assert(a.valids() =~= tree_valids(*t));
                                }
                                Ok(a)
                            },
                            Err(e) => Err(e),
                        },
                        crate::dtype::IntegerType::UInt64 => match finish_dict::<u64>(t, dt, pool) {
                            Ok(d) => {
                                let ghost dg = d;
                                let a = Array::Dictionary(crate::dictionary::AnyDictionary::K64(d));
                                proof {
                                    reveal_with_fuel(crate::array::Array::cells, 3);
                                    reveal_with_fuel(crate::array::Array::ok, 3);
                                    assert(a.ok());
                                    assert(dg.keys.ints() == window_ints(*t, 1));
                                    assert(dg.keys.valids() == tree_valids(*t));
                                    assert(dg.keys.length as nat == t.length as nat);
                                    assert(*dg.values == pool);
                                    assert(pool.cells() == tree_cells(
                                        *t.dictionary.unwrap(),
                                        *inner,
                                    ));
                                    assert(dg.values.cells() == tree_cells(
                                        *t.dictionary.unwrap(),
                                        *inner,
                                    ));
                                    assert(a.cells() == dg.cells());
                                    assert(dg.cells() == crate::dictionary::dict_resolve(
                                        dg.keys.ints(),
                                        dg.keys.valids(),
                                        dg.keys.length as nat,
                                        dg.values.cells(),
                                    ));
                                    assert(a.cells() =~~= tree_cells(*t, *dt));
                                    assert(a.valids() =~= tree_valids(*t));
                                }
                                Ok(a)
                            },
                            Err(e) => Err(e),
                        },
                    }
                },
            }
        },
    }
}

} // verus!
