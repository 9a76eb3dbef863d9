//! Dictionary-encoded arrays: an index array (`keys`) referencing a
//! shared value pool (`values`). The safety-critical invariant is that
//! every key of the window, read as a machine index, is strictly
//! smaller than the pool's length (or the keys are all null, in which
//! case no key is ever read).

use vstd::prelude::*;

use crate::array::{Array, Cell};
use crate::bitmap::Bitmap;
use crate::dtype::{DataType, IntegerType};
use crate::error::ArrowError;
use crate::native::Native;
use crate::primitive::PrimitiveArray;

verus! {

/// An integer type usable as a dictionary key: losslessly convertible
/// to and from a machine index for every value it can hold in that
/// range.
pub trait DictionaryKey: Native {
    /// The largest value of this type that a machine index can hold.
    spec fn spec_max_usize_value() -> int;

    /// The integer tag of this key type.
    fn key_type() -> (r: IntegerType)
        ensures
            r == Self::tag(),
    ;

    /// The largest value of this type that a machine index can hold.
    fn max_usize_value() -> (r: usize)
        ensures
            r as int == Self::spec_max_usize_value(),
    ;

    /// Whether every value of this type fits a machine index, so the
    /// fallible conversion step can be skipped. True for the unsigned
    /// types up to the host word width.
    fn always_fits_usize() -> (r: bool)
        ensures
            r ==> forall|x: Self| 0 <= (#[trigger] x.as_int()) <= usize::MAX,
    ;

    /// The value as a machine index, when it fits.
    fn try_as_usize(self) -> (r: Option<usize>)
        ensures
            r is Some <==> 0 <= self.as_int() <= usize::MAX,
            r matches Some(u) ==> u as int == self.as_int(),
    ;

    /// The value as a machine index. The caller must have checked
    /// that the value fits.
    fn as_usize(self) -> (r: usize)
        requires
            0 <= self.as_int() <= usize::MAX,
        ensures
            r as int == self.as_int(),
    ;

    /// The key holding a machine index. The caller must have checked
    /// that the index is representable.
    fn from_usize_unchecked(x: usize) -> (r: Self)
        requires
            x as int <= Self::spec_max_usize_value(),
        ensures
            r.as_int() == x as int,
    ;
}

impl DictionaryKey for u8 {
    open spec fn spec_max_usize_value() -> int {
        255
    }

    fn key_type() -> (r: IntegerType) {
        <u8 as Native>::rt_tag()
    }

    fn max_usize_value() -> (r: usize) {
        255
    }

    fn always_fits_usize() -> (r: bool) {
        true
    }

    fn try_as_usize(self) -> (r: Option<usize>) {
        Some(self as usize)
    }

    fn as_usize(self) -> (r: usize) {
        self as usize
    }

    fn from_usize_unchecked(x: usize) -> (r: Self) {
        x as u8
    }
}

impl DictionaryKey for u16 {
    open spec fn spec_max_usize_value() -> int {
        65535
    }

    fn key_type() -> (r: IntegerType) {
        <u16 as Native>::rt_tag()
    }

    fn max_usize_value() -> (r: usize) {
        65535
    }

    fn always_fits_usize() -> (r: bool) {
        true
    }

    fn try_as_usize(self) -> (r: Option<usize>) {
        Some(self as usize)
    }

    fn as_usize(self) -> (r: usize) {
        self as usize
    }

    fn from_usize_unchecked(x: usize) -> (r: Self) {
        x as u16
    }
}

impl DictionaryKey for u32 {
    open spec fn spec_max_usize_value() -> int {
        u32::MAX as int
    }

    fn key_type() -> (r: IntegerType) {
        <u32 as Native>::rt_tag()
    }

    fn max_usize_value() -> (r: usize) {
        u32::MAX as usize
    }

    fn always_fits_usize() -> (r: bool) {
        true
    }

    fn try_as_usize(self) -> (r: Option<usize>) {
        Some(self as usize)
    }

    fn as_usize(self) -> (r: usize) {
        self as usize
    }

    fn from_usize_unchecked(x: usize) -> (r: Self) {
        x as u32
    }
}

impl DictionaryKey for u64 {
    open spec fn spec_max_usize_value() -> int {
        usize::MAX as int
    }

    fn key_type() -> (r: IntegerType) {
        <u64 as Native>::rt_tag()
    }

    fn max_usize_value() -> (r: usize) {
        usize::MAX
    }

    fn always_fits_usize() -> (r: bool) {
        usize::MAX as u64 == u64::MAX
    }

    fn try_as_usize(self) -> (r: Option<usize>) {
        if (self as u128) <= (usize::MAX as u128) {
            Some(self as usize)
        } else {
            None
        }
    }

    fn as_usize(self) -> (r: usize) {
        self as usize
    }

    fn from_usize_unchecked(x: usize) -> (r: Self) {
        x as u64
    }
}

impl DictionaryKey for i8 {
    open spec fn spec_max_usize_value() -> int {
        127
    }

    fn key_type() -> (r: IntegerType) {
        <i8 as Native>::rt_tag()
    }

    fn max_usize_value() -> (r: usize) {
        127
    }

    fn always_fits_usize() -> (r: bool) {
        false
    }

    fn try_as_usize(self) -> (r: Option<usize>) {
        if self < 0 {
            None
        } else {
            Some(self as usize)
        }
    }

    fn as_usize(self) -> (r: usize) {
        self as usize
    }

    fn from_usize_unchecked(x: usize) -> (r: Self) {
        x as i8
    }
}

impl DictionaryKey for i16 {
    open spec fn spec_max_usize_value() -> int {
        32767
    }

    fn key_type() -> (r: IntegerType) {
        <i16 as Native>::rt_tag()
    }

    fn max_usize_value() -> (r: usize) {
        32767
    }

    fn always_fits_usize() -> (r: bool) {
        false
    }

    fn try_as_usize(self) -> (r: Option<usize>) {
        if self < 0 {
            None
        } else {
            Some(self as usize)
        }
    }

    fn as_usize(self) -> (r: usize) {
        self as usize
    }

    fn from_usize_unchecked(x: usize) -> (r: Self) {
        x as i16
    }
}

impl DictionaryKey for i32 {
    open spec fn spec_max_usize_value() -> int {
        i32::MAX as int
    }

    fn key_type() -> (r: IntegerType) {
        <i32 as Native>::rt_tag()
    }

    fn max_usize_value() -> (r: usize) {
        i32::MAX as usize
    }

    fn always_fits_usize() -> (r: bool) {
        false
    }

    fn try_as_usize(self) -> (r: Option<usize>) {
        if self < 0 {
            None
        } else {
            Some(self as usize)
        }
    }

    fn as_usize(self) -> (r: usize) {
        self as usize
    }

    fn from_usize_unchecked(x: usize) -> (r: Self) {
        x as i32
    }
}

impl DictionaryKey for i64 {
    open spec fn spec_max_usize_value() -> int {
        if i64::MAX as int <= usize::MAX as int {
            i64::MAX as int
        } else {
            usize::MAX as int
        }
    }

    fn key_type() -> (r: IntegerType) {
        <i64 as Native>::rt_tag()
    }

    fn max_usize_value() -> (r: usize) {
        if usize::MAX as u64 >= i64::MAX as u64 {
            i64::MAX as usize
        } else {
            usize::MAX
        }
    }

    fn always_fits_usize() -> (r: bool) {
        false
    }

    fn try_as_usize(self) -> (r: Option<usize>) {
        if self < 0 {
            None
        } else {
            if (self as u128) <= (usize::MAX as u128) {
                Some(self as usize)
            } else {
                None
            }
        }
    }

    fn as_usize(self) -> (r: usize) {
        self as usize
    }

    fn from_usize_unchecked(x: usize) -> (r: Self) {
        x as i64
    }
}

/// A dictionary-encoded array.
#[derive(Debug)]
pub struct DictionaryArray<K: DictionaryKey> {
    pub dtype: DataType,
    pub keys: PrimitiveArray<K>,
    pub values: Box<Array>,
}

/// Checks that `dtype` is a dictionary descriptor whose key tag is
/// `key_type` and whose declared value type equals `values_dtype`.
pub fn check_dtype(key_type: IntegerType, dtype: &DataType, values_dtype: &DataType) -> (r:
    Result<(), ArrowError>)
    ensures
        r is Ok <==> spec_dtype_ok(key_type, *dtype, *values_dtype),
        r matches Err(e) ==> e == spec_dtype_err(key_type, *dtype, *values_dtype),
{
    match dtype.to_logical_type() {
        DataType::Dictionary(k, value, _) => {
            if *k != key_type {
                Err(ArrowError::KeyTypeMismatch)
            } else if !crate::dtype::dtype_eq(value.to_logical_type(), values_dtype.to_logical_type()) {
                Err(ArrowError::ValueTypeMismatch)
            } else {
                Ok(())
            }
        },
        _ => Err(ArrowError::NotADictionaryType),
    }
}

/// Whether `dtype` is a dictionary descriptor with the given key tag
/// and value type.
pub open spec fn spec_dtype_ok(key_type: IntegerType, dtype: DataType, values_dtype: DataType) -> bool {
    match dtype {
        DataType::Dictionary(k, value, _) => k == key_type && *value == values_dtype,
        _ => false,
    }
}

/// The error that the descriptor check reports, when it fails.
pub open spec fn spec_dtype_err(key_type: IntegerType, dtype: DataType, values_dtype: DataType) -> ArrowError {
    match dtype {
        DataType::Dictionary(k, value, _) => if k != key_type {
            ArrowError::KeyTypeMismatch
        } else {
            ArrowError::ValueTypeMismatch
        },
        _ => ArrowError::NotADictionaryType,
    }
}

/// Scans the key window: every key must be representable as a machine
/// index and strictly smaller than `limit`. When the key type always
/// fits a machine index, the fallible conversion step is skipped and
/// only the range is checked.
pub fn check_indexes<K: DictionaryKey>(keys: &PrimitiveArray<K>, limit: usize) -> (r: Result<
    (),
    ArrowError,
>)
    requires
        keys.wf(),
    ensures
        r is Ok <==> forall|i: int| 0 <= i < keys.length ==> 0 <= (#[trigger] keys.ints()[i]) < limit,
        r matches Err(e) ==> match e {
            ArrowError::KeyUnrepresentable { position } => position < keys.length && !(0
                <= keys.ints()[position as int] <= usize::MAX),
            ArrowError::KeyOutOfBounds { key, pool_size } => pool_size == limit && exists|i: int|
                0 <= i < keys.length && (#[trigger] keys.ints()[i]) == key && key >= limit,
            _ => false,
        },
{
    let fits = K::always_fits_usize();
    let n = keys.len();
    let mut i: usize = 0;
    while i < n
        invariant
            keys.wf(),
            n == keys.length,
            i <= n,
            fits ==> forall|x: K| 0 <= (#[trigger] x.as_int()) <= usize::MAX,
            forall|j: int| 0 <= j < i ==> 0 <= (#[trigger] keys.ints()[j]) < limit,
        decreases n - i,
    {
        let k = keys.value(i);
        let u_opt = if fits {
            Some(k.as_usize())
        } else {
            k.try_as_usize()
        };
        match u_opt {
            None => {
                return Err(ArrowError::KeyUnrepresentable { position: i });
            },
            Some(u) => {
                if u >= limit {
                    return Err(ArrowError::KeyOutOfBounds { key: u, pool_size: limit });
                }
            },
        }
        i = i + 1;
    }
    Ok(())
}

impl<K: DictionaryKey> DictionaryArray<K> {
    /// Whether every key of the window is null.
    pub open spec fn all_null(&self) -> bool {
        self.keys.spec_null_count() == self.keys.length
    }

    /// Whether every key of the window, read as an integer, is a
    /// valid index into the value pool.
    pub open spec fn keys_in_bounds(&self) -> bool {
        forall|i: int|
            0 <= i < self.keys.length ==> 0 <= (#[trigger] self.keys.ints()[i])
                < self.values.spec_len()
    }

    /// Well-formedness of this node: the descriptor is a dictionary
    /// encoding agreeing with the key type and the pool's type, the
    /// keys array is well formed, and the bounds invariant holds
    /// (unless the keys are all null, in which case no key is read).
    /// The pool's own well-formedness is stated by the array tree.
    pub open spec fn local_wf(&self) -> bool {
        &&& spec_dtype_ok(K::tag(), self.dtype, self.values.spec_dtype())
        &&& self.keys.wf()
        &&& self.all_null() || self.keys_in_bounds()
    }

    /// Full well-formedness: this node and the value pool below it.
    pub open spec fn ok(&self) -> bool
        decreases self,
    {
        self.local_wf() && self.values.ok()
    }

    /// Ready for export.
    pub open spec fn export_ready(&self) -> bool
        decreases self,
    {
        self.keys.export_ready() && self.values.spec_export_ready()
    }

    /// The logical content of the window: each non-null key resolves
    /// to the corresponding cell of the value pool.
    pub open spec fn cells(&self) -> Seq<Cell>
        decreases self,
    {
        dict_resolve(self.keys.ints(), self.keys.valids(), self.keys.length as nat, self.values.cells())
    }

    /// Returns a new dictionary array after checking the descriptor
    /// and scanning every key of the window for the bounds invariant.
    /// Unless the keys are all null, every slot of the window is
    /// scanned — also the slots under nulls, since the
    /// validity-ignoring accessors read those too.
    pub fn try_new(dtype: DataType, keys: PrimitiveArray<K>, values: Box<Array>) -> (r: Result<
        Self,
        ArrowError,
    >)
        requires
            keys.wf(),
            values.ok(),
        ensures
            r is Ok <==> spec_dtype_ok(K::tag(), dtype, values.spec_dtype()) && ((
            keys.spec_null_count() == keys.length) || (forall|i: int|
                0 <= i < keys.length ==> 0 <= (#[trigger] keys.ints()[i]) < values.spec_len())),
            r matches Ok(d) ==> d.ok() && d.dtype == dtype && d.keys == keys && d.values == values,
            r matches Err(e) ==> !(spec_dtype_ok(K::tag(), dtype, values.spec_dtype())) ==> e
                == spec_dtype_err(K::tag(), dtype, values.spec_dtype()),
            r matches Err(e) ==> spec_dtype_ok(K::tag(), dtype, values.spec_dtype()) ==> (e
                is KeyOutOfBounds || e is KeyUnrepresentable),
            r matches Err(e) ==> match e {
                ArrowError::KeyUnrepresentable { position } => position < keys.length && !(0
                    <= keys.ints()[position as int] <= usize::MAX),
                ArrowError::KeyOutOfBounds { key, pool_size } => pool_size == values.spec_len()
                    && exists|i: int|
                    0 <= i < keys.length && (#[trigger] keys.ints()[i]) == key && key
                        >= values.spec_len(),
                _ => e == spec_dtype_err(K::tag(), dtype, values.spec_dtype()),
            },
    {
        let tag = K::key_type();
        match check_dtype(tag, &dtype, values.dtype()) {
            Err(e) => Err(e),
            Ok(()) => {
                let nulls = keys.null_count();
                if nulls != keys.len() {
                    match check_indexes(&keys, values.len()) {
                        Err(e) => Err(e),
                        Ok(()) => Ok(DictionaryArray { dtype, keys, values }),
                    }
                } else {
                    Ok(DictionaryArray { dtype, keys, values })
                }
            },
        }
    }

    /// Returns a new dictionary array under the default descriptor
    /// for this key type, checking the bounds invariant.
    pub fn try_from_keys(keys: PrimitiveArray<K>, values: Box<Array>) -> (r: Result<
        Self,
        ArrowError,
    >)
        requires
            keys.wf(),
            values.ok(),
        ensures
            r is Ok <==> (keys.spec_null_count() == keys.length) || (forall|i: int|
                0 <= i < keys.length ==> 0 <= (#[trigger] keys.ints()[i]) < values.spec_len()),
            r matches Ok(d) ==> d.ok() && d.keys == keys && d.values == values,
            r matches Ok(d) ==> match d.dtype {
                DataType::Dictionary(k, inner, ordered) => k == K::tag() && *inner
                    == values.spec_dtype() && !ordered,
                _ => false,
            },
            r matches Err(e) ==> e is KeyOutOfBounds || e is KeyUnrepresentable,
            r matches Err(e) ==> match e {
                ArrowError::KeyUnrepresentable { position } => position < keys.length && !(0
                    <= keys.ints()[position as int] <= usize::MAX),
                ArrowError::KeyOutOfBounds { key, pool_size } => pool_size == values.spec_len()
                    && exists|i: int|
                    0 <= i < keys.length && (#[trigger] keys.ints()[i]) == key && key
                        >= values.spec_len(),
                _ => true,
            },
    {
        let dtype = Self::default_dtype(crate::dtype::dtype_clone(values.dtype()));
        proof {
            assert(spec_dtype_ok(K::tag(), dtype, values.spec_dtype()));
        }
        let r = Self::try_new(dtype, keys, values);
        r
    }

    /// Returns a new dictionary array after checking the descriptor
    /// only. The caller must have proved the bounds invariant.
    pub fn try_new_unchecked(dtype: DataType, keys: PrimitiveArray<K>, values: Box<Array>) -> (r:
        Result<Self, ArrowError>)
        requires
            keys.wf(),
            values.ok(),
            (keys.spec_null_count() == keys.length) || (forall|i: int|
                0 <= i < keys.length ==> 0 <= (#[trigger] keys.ints()[i]) < values.spec_len()),
        ensures
            r is Ok <==> spec_dtype_ok(K::tag(), dtype, values.spec_dtype()),
            r matches Ok(d) ==> d.ok() && d.dtype == dtype && d.keys == keys && d.values == values,
            r matches Err(e) ==> e == spec_dtype_err(K::tag(), dtype, values.spec_dtype()),
    {
        let tag = K::key_type();
        match check_dtype(tag, &dtype, values.dtype()) {
            Err(e) => Err(e),
            Ok(()) => Ok(DictionaryArray { dtype, keys, values }),
        }
    }

    /// The default dictionary descriptor over the given value type.
    pub fn default_dtype(values_dtype: DataType) -> (r: DataType)
        ensures
            r == DataType::Dictionary(K::tag(), Box::new(values_dtype), false),
    {
        let tag = K::key_type();
        DataType::Dictionary(tag, Box::new(values_dtype), false)
    }

    /// The descriptor of this array.
    pub fn dtype(&self) -> (r: &DataType)
        ensures
            r == &self.dtype,
    {
        &self.dtype
    }

    /// Whether the descriptor declares the value pool as ordered.
    pub fn is_ordered(&self) -> (r: bool)
        requires
            self.dtype is Dictionary,
        ensures
            match self.dtype {
                DataType::Dictionary(_, _, o) => r == o,
                _ => false,
            },
    {
        match self.dtype.to_logical_type() {
            DataType::Dictionary(_, _, is_ordered) => *is_ordered,
            _ => false,
        }
    }

    /// The number of elements of the window.
    pub fn len(&self) -> (r: usize)
        ensures
            r == self.keys.length,
    {
        self.keys.len()
    }

    /// The validity of the keys.
    pub fn validity(&self) -> (r: &Option<Bitmap>)
        ensures
            r == self.keys.validity,
    {
        self.keys.validity()
    }

    /// The keys array.
    pub fn keys(&self) -> (r: &PrimitiveArray<K>)
        ensures
            r == &self.keys,
    {
        &self.keys
    }

    /// The value pool.
    pub fn values(&self) -> (r: &Box<Array>)
        ensures
            r == &self.values,
    {
        &self.values
    }

    /// The key at position `index` of the window, as a machine index.
    /// On an array holding at least one non-null key, the result is
    /// always strictly smaller than the pool's length.
    pub fn key_value(&self, index: usize) -> (r: usize)
        requires
            self.ok(),
            index < self.keys.length,
            0 <= self.keys.ints()[index as int] <= usize::MAX,
        ensures
            r as int == self.keys.ints()[index as int],
            !self.all_null() ==> (r as int) < self.values.spec_len(),
    {
        self.keys.value(index).as_usize()
    }

    /// Every key of the window as a machine index, validity ignored.
    /// On an array holding any non-null key the bounds requirement
    /// follows from the construction invariant.
    pub fn keys_values_iter(&self) -> (r: Vec<usize>)
        requires
            self.ok(),
            self.keys_in_bounds(),
        ensures
            r@.len() == self.keys.length,
            forall|i: int| 0 <= i < r@.len() ==> (#[trigger] r@[i]) as int == self.keys.ints()[i],
            forall|i: int| 0 <= i < r@.len() ==> (#[trigger] r@[i]) < self.values.spec_len(),
    {
        let n = self.keys.len();
        let mut out: Vec<usize> = Vec::new();
        let mut i: usize = 0;
        while i < n
            invariant
                self.ok(),
                self.keys_in_bounds(),
                n == self.keys.length,
                i <= n,
                out@.len() == i,
                forall|j: int| 0 <= j < i ==> (#[trigger] out@[j]) as int == self.keys.ints()[j],
                forall|j: int| 0 <= j < i ==> (#[trigger] out@[j]) < self.values.spec_len(),
            decreases n - i,
        {
            out.push(self.keys.value(i).as_usize());
            i = i + 1;
        }
        out
    }

    /// Every key of the window as an optional machine index: null
    /// positions read as absent.
    pub fn keys_iter(&self) -> (r: Vec<Option<usize>>)
        requires
            self.ok(),
        ensures
            r@.len() == self.keys.length,
            forall|i: int| 0 <= i < r@.len() ==> ((#[trigger] r@[i]) is Some <==> self.keys.valids()[i]),
            forall|i: int|
                0 <= i < r@.len() && self.keys.valids()[i] ==> (#[trigger] r@[i]).unwrap() as int
                    == self.keys.ints()[i],
    {
        let n = self.keys.len();
        let mut out: Vec<Option<usize>> = Vec::new();
        let mut i: usize = 0;
        while i < n
            invariant
                self.ok(),
                n == self.keys.length,
                i <= n,
                out@.len() == i,
                forall|j: int| 0 <= j < i ==> ((#[trigger] out@[j]) is Some <==> self.keys.valids()[j]),
                forall|j: int|
                    0 <= j < i && self.keys.valids()[j] ==> (#[trigger] out@[j]).unwrap() as int
                        == self.keys.ints()[j],
            decreases n - i,
        {
            let valid = match self.keys.validity() {
                Some(v) => v.get(i),
                None => true,
            };
            if valid {
                proof {
                    if self.all_null() {
                        crate::bitmap::lemma_count_false_full(self.keys.valids());
                        assert(false);
                    }
                }
                out.push(Some(self.keys.value(i).as_usize()));
            } else {
                out.push(None);
            }
            i = i + 1;
        }
        out
    }

    /// Narrows the key window to `offset .. offset + length` of it;
    /// the value pool is untouched.
    pub fn slice(&mut self, offset: usize, length: usize)
        requires
            old(self).ok(),
            offset + length <= old(self).keys.length,
        ensures
            final(self).ok(),
            final(self).dtype == old(self).dtype,
            final(self).values == old(self).values,
            final(self).keys.length == length,
            final(self).keys.ints() == old(self).keys.ints().subrange(
                offset as int,
                offset + length,
            ),
            final(self).keys.valids() == old(self).keys.valids().subrange(
                offset as int,
                offset + length,
            ),
            old(self).export_ready() ==> final(self).export_ready(),
    {
        self.keys.slice(offset, length);
        proof {
            if old(self).all_null() {
                crate::bitmap::lemma_count_false_full(old(self).keys.valids());
                assert(forall|i: int| 0 <= i < length ==> !self.keys.valids()[i]);
                crate::bitmap::lemma_count_false_all_false(self.keys.valids());
                assert(self.all_null());
            } else {
                assert(old(self).keys_in_bounds());
                assert forall|i: int| 0 <= i < self.keys.length implies 0 <= (
                #[trigger] self.keys.ints()[i]) < self.values.spec_len() by {
                    assert(self.keys.ints()[i] == old(self).keys.ints()[offset + i]);
                }
            }
        }
    }

    /// As `slice`; the window must already be known to fit.
    pub fn slice_unchecked(&mut self, offset: usize, length: usize)
        requires
            old(self).ok(),
            offset + length <= old(self).keys.length,
        ensures
            final(self).ok(),
            final(self).dtype == old(self).dtype,
            final(self).values == old(self).values,
            final(self).keys.length == length,
            final(self).keys.ints() == old(self).keys.ints().subrange(
                offset as int,
                offset + length,
            ),
            final(self).keys.valids() == old(self).keys.valids().subrange(
                offset as int,
                offset + length,
            ),
    {
        self.slice(offset, length);
    }

    /// This array with the keys' validity replaced. As with
    /// `set_validity`, the bounds invariant must be known to survive.
    pub fn with_validity(self, validity: Option<Bitmap>) -> (r: Self)
        requires
            self.ok(),
            match validity {
                Some(v) => v.wf() && v.length == self.keys.length,
                None => true,
            },
            self.keys_in_bounds() || (match validity {
                Some(v) => crate::bitmap::count_false(v.view()) == self.keys.length,
                None => self.keys.length == 0,
            }),
        ensures
            r.ok(),
            r.dtype == self.dtype,
            r.values == self.values,
            r.keys.length == self.keys.length,
            r.keys.ints() == self.keys.ints(),
            r.keys.validity == validity,
    {
        let mut out = self;
        out.set_validity(validity);
        out
    }

    /// Replaces the keys' validity; the value pool is untouched.
    /// The bounds invariant must be known to survive: either every
    /// key of the window is in bounds, or the new validity marks
    /// every slot null.
    pub fn set_validity(&mut self, validity: Option<Bitmap>)
        requires
            old(self).ok(),
            match validity {
                Some(v) => v.wf() && v.length == old(self).keys.length,
                None => true,
            },
            old(self).keys_in_bounds() || (match validity {
                Some(v) => crate::bitmap::count_false(v.view()) == old(self).keys.length,
                None => old(self).keys.length == 0,
            }),
        ensures
            final(self).ok(),
            final(self).dtype == old(self).dtype,
            final(self).values == old(self).values,
            final(self).keys.length == old(self).keys.length,
            final(self).keys.ints() == old(self).keys.ints(),
            final(self).keys.validity == validity,
    {
        self.keys.set_validity(validity);
    }

    /// Takes this array apart.
    pub fn take(self) -> (r: (DataType, PrimitiveArray<K>, Box<Array>))
        ensures
            r.0 == self.dtype,
            r.1 == self.keys,
            r.2 == self.values,
    {
        (self.dtype, self.keys, self.values)
    }

    /// Whether `offset` is a position the window can be split at.
    /// Splitting at either end is allowed (an empty half on either
    /// side), so the bound is inclusive.
    pub fn check_bound(&self, offset: usize) -> (r: bool)
        ensures
            r == (offset <= self.keys.length),
    {
        offset <= self.keys.len()
    }
}


impl<K: DictionaryKey> DictionaryArray<K> {
    /// An empty dictionary array under the given descriptor, with an
    /// empty value pool of the declared value type.
    pub fn new_empty(dtype: DataType) -> (r: Self)
        requires
            dtype.wf(),
            match dtype {
                DataType::Dictionary(k, _, _) => k == K::tag(),
                _ => false,
            },
        ensures
            r.ok(),
            r.export_ready(),
            r.dtype == dtype,
            r.keys.length == 0,
            r.values.spec_len() == 0,
    {
        let values = match &dtype {
            DataType::Dictionary(_, inner, _) => Box::new(
                crate::array::new_empty_array(crate::dtype::dtype_clone(inner)),
            ),
            _ => Box::new(crate::array::new_empty_array(DataType::Null)),
        };
        let tag = K::key_type();
        let keys = crate::primitive::PrimitiveArray::<K>::new_empty(
            crate::dtype::integer_dtype(tag),
        );
        DictionaryArray { dtype, keys, values }
    }

    /// A dictionary array of `length` all-null elements under the
    /// given descriptor; the pool holds a single null value.
    pub fn new_null(dtype: DataType, length: usize) -> (r: Self)
        requires
            dtype.wf(),
            length <= i64::MAX,
            match dtype {
                DataType::Dictionary(k, inner, _) => k == K::tag() && crate::array::null_fits(
                    *inner,
                    1,
                ),
                _ => false,
            },
        ensures
            r.ok(),
            r.export_ready(),
            r.dtype == dtype,
            r.keys.length == length,
            r.all_null(),
            r.values.spec_len() == 1,
    {
        let values = match &dtype {
            DataType::Dictionary(_, inner, _) => Box::new(
                crate::array::new_null_array(crate::dtype::dtype_clone(inner), 1),
            ),
            _ => Box::new(crate::array::new_empty_array(DataType::Null)),
        };
        let tag = K::key_type();
        let keys = crate::primitive::PrimitiveArray::<K>::new_null(
            crate::dtype::integer_dtype(tag),
            length,
        );
        proof {
            crate::bitmap::lemma_count_false_all_false(keys.valids());
        }
        DictionaryArray { dtype, keys, values }
    }

    /// Splits the key window at `offset`: two arrays whose key
    /// windows are the two disjoint halves and whose value pools hold
    /// the same content; the pool is never resliced. In this owned
    /// representation the halves carry equal copies of the pool where
    /// a reference-counted store would share one allocation.
    pub fn split_at(&self, offset: usize) -> (r: (Self, Self))
        requires
            self.ok(),
            offset <= self.keys.length,
        ensures
            r.0.ok() && r.1.ok(),
            r.0.dtype == self.dtype && r.1.dtype == self.dtype,
            r.0.keys.length == offset,
            r.1.keys.length == self.keys.length - offset,
            r.0.keys.ints() == self.keys.ints().subrange(0, offset as int),
            r.1.keys.ints() == self.keys.ints().subrange(
                offset as int,
                self.keys.length as int,
            ),
            r.0.keys.valids() == self.keys.valids().subrange(0, offset as int),
            r.1.keys.valids() == self.keys.valids().subrange(
                offset as int,
                self.keys.length as int,
            ),
            r.0.values.cells() =~~= self.values.cells(),
            r.1.values.cells() =~~= self.values.cells(),
            r.0.values.spec_len() == self.values.spec_len(),
            r.1.values.spec_len() == self.values.spec_len(),
    {
        self._split_at_unchecked(offset)
    }

    /// As `split_at`; the bound must already be known to hold.
    pub fn _split_at_unchecked(&self, offset: usize) -> (r: (Self, Self))
        requires
            self.ok(),
            offset <= self.keys.length,
        ensures
            r.0.ok() && r.1.ok(),
            r.0.dtype == self.dtype && r.1.dtype == self.dtype,
            r.0.keys.length == offset,
            r.1.keys.length == self.keys.length - offset,
            r.0.keys.ints() == self.keys.ints().subrange(0, offset as int),
            r.1.keys.ints() == self.keys.ints().subrange(
                offset as int,
                self.keys.length as int,
            ),
            r.0.keys.valids() == self.keys.valids().subrange(0, offset as int),
            r.1.keys.valids() == self.keys.valids().subrange(
                offset as int,
                self.keys.length as int,
            ),
            r.0.values.cells() =~~= self.values.cells(),
            r.1.values.cells() =~~= self.values.cells(),
            r.0.values.spec_len() == self.values.spec_len(),
            r.1.values.spec_len() == self.values.spec_len(),
    {
        let lhs_keys = self.keys.sliced(0, offset);
        let rhs_keys = self.keys.sliced(offset, self.keys.len() - offset);
        let lhs = DictionaryArray {
            dtype: crate::dtype::dtype_clone(&self.dtype),
            keys: lhs_keys,
            values: Box::new(crate::array::clone_array(&self.values)),
        };
        let rhs = DictionaryArray {
            dtype: crate::dtype::dtype_clone(&self.dtype),
            keys: rhs_keys,
            values: Box::new(crate::array::clone_array(&self.values)),
        };
        proof {
            if self.all_null() {
                crate::bitmap::lemma_count_false_full(self.keys.valids());
                assert(forall|i: int| 0 <= i < offset ==> !lhs.keys.valids()[i]);
                crate::bitmap::lemma_count_false_all_false(lhs.keys.valids());
                assert(forall|i: int|
                    0 <= i < rhs.keys.length ==> !rhs.keys.valids()[i]);
                crate::bitmap::lemma_count_false_all_false(rhs.keys.valids());
            } else {
                assert(self.keys_in_bounds());
                assert forall|i: int| 0 <= i < lhs.keys.length implies 0 <= (
                #[trigger] lhs.keys.ints()[i]) < lhs.values.spec_len() by {
                    assert(lhs.keys.ints()[i] == self.keys.ints()[i]);
                }
                assert forall|i: int| 0 <= i < rhs.keys.length implies 0 <= (
                #[trigger] rhs.keys.ints()[i]) < rhs.values.spec_len() by {
                    assert(rhs.keys.ints()[i] == self.keys.ints()[offset + i]);
                }
            }
        }
        (lhs, rhs)
    }
}


impl<K: DictionaryKey> DictionaryArray<K> {
    /// The value at position `index` of the window, resolved through
    /// the pool. The position's own validity is not consulted; on an
    /// array with at least one non-null key every key is in bounds.
    pub fn value(&self, index: usize) -> (r: crate::array::ScalarValue)
        requires
            self.ok(),
            index < self.keys.length,
            !self.all_null(),
        ensures
            crate::array::cell_of(r) =~~= self.values.cells()[self.keys.ints()[index as int]],
    {
        proof {
            assert(self.keys_in_bounds());
            crate::array::lemma_cells_len(*self.values);
        }
        let key = self.keys.value(index).as_usize();
        crate::array::value_at(&self.values, key)
    }

    /// All window positions resolved through the pool, validity
    /// ignored; the counterpart that honours validity is `iter`.
    pub fn values_iter(&self) -> (r: Vec<crate::array::ScalarValue>)
        requires
            self.ok(),
            !self.all_null(),
        ensures
            r@.len() == self.keys.length,
            forall|i: int|
                0 <= i < r@.len() ==> crate::array::cell_of(#[trigger] r@[i])
                    =~~= self.values.cells()[self.keys.ints()[i]],
    {
        let n = self.keys.len();
        let mut out: Vec<crate::array::ScalarValue> = Vec::new();
        let mut i: usize = 0;
        while i < n
            invariant
                self.ok(),
                !self.all_null(),
                n == self.keys.length,
                i <= n,
                out@.len() == i,
                forall|j: int|
                    0 <= j < i ==> crate::array::cell_of(#[trigger] out@[j])
                        =~~= self.values.cells()[self.keys.ints()[j]],
            decreases n - i,
        {
            out.push(self.value(i));
            i = i + 1;
        }
        out
    }

    /// Each window position as an optional value: null positions read
    /// as absent, the rest resolve through the pool.
    pub fn iter(&self) -> (r: Vec<Option<crate::array::ScalarValue>>)
        requires
            self.ok(),
        ensures
            r@.len() == self.keys.length,
            forall|i: int| 0 <= i < r@.len() ==> ((#[trigger] r@[i]) is Some <==> self.keys.valids()[i]),
            forall|i: int|
                0 <= i < r@.len() && self.keys.valids()[i] ==> crate::array::cell_of(
                    (#[trigger] r@[i]).unwrap(),
                ) =~~= self.values.cells()[self.keys.ints()[i]],
    {
        let n = self.keys.len();
        let mut out: Vec<Option<crate::array::ScalarValue>> = Vec::new();
        let mut i: usize = 0;
        while i < n
            invariant
                self.ok(),
                n == self.keys.length,
                i <= n,
                out@.len() == i,
                forall|j: int| 0 <= j < i ==> ((#[trigger] out@[j]) is Some <==> self.keys.valids()[j]),
                forall|j: int|
                    0 <= j < i && self.keys.valids()[j] ==> crate::array::cell_of(
                        (#[trigger] out@[j]).unwrap(),
                    ) =~~= self.values.cells()[self.keys.ints()[j]],
            decreases n - i,
        {
            let valid = match self.keys.validity() {
                Some(v) => v.get(i),
                None => true,
            };
            if valid {
                proof {
                    if self.all_null() {
                        crate::bitmap::lemma_count_false_full(self.keys.valids());
                        assert(false);
                    }
                }
                out.push(Some(self.value(i)));
            } else {
                out.push(None);
            }
            i = i + 1;
        }
        out
    }
}

/// The bounds invariant, as every checked constructor establishes
/// it: in a well-formed dictionary array, every position holding a
/// non-null key indexes strictly inside the value pool.
pub proof fn lemma_dict_bounds<K: DictionaryKey>(d: DictionaryArray<K>, i: int)
    requires
        d.ok(),
        0 <= i < d.keys.length,
        d.keys.valids()[i],
    ensures
        0 <= d.keys.ints()[i] < d.values.spec_len(),
{
    if d.all_null() {
        crate::bitmap::lemma_count_false_full(d.keys.valids());
        assert(false);
    }
}

/// The cells of a dictionary window: each non-null key resolves to
/// the pool cell it indexes.
pub open spec fn dict_resolve(ints: Seq<int>, valids: Seq<bool>, len: nat, pool: Seq<Cell>) -> Seq<
    Cell,
> {
    Seq::new(len, |i: int| if !valids[i] {
        Cell::Missing
    } else {
        pool[ints[i]]
    })
}

/// A dictionary array of any of the supported key widths.
#[derive(Debug)]
pub enum AnyDictionary {
    K8(DictionaryArray<u8>),
    K16(DictionaryArray<u16>),
    K32(DictionaryArray<u32>),
    K64(DictionaryArray<u64>),
    S8(DictionaryArray<i8>),
    S16(DictionaryArray<i16>),
    S32(DictionaryArray<i32>),
    S64(DictionaryArray<i64>),
}

impl AnyDictionary {
    /// The descriptor.
    pub open spec fn spec_dtype(&self) -> DataType {
        match self {
            AnyDictionary::K8(d) => d.dtype,
            AnyDictionary::K16(d) => d.dtype,
            AnyDictionary::K32(d) => d.dtype,
            AnyDictionary::K64(d) => d.dtype,
            AnyDictionary::S8(d) => d.dtype,
            AnyDictionary::S16(d) => d.dtype,
            AnyDictionary::S32(d) => d.dtype,
            AnyDictionary::S64(d) => d.dtype,
        }
    }

    /// The number of elements of the key window.
    pub open spec fn spec_len(&self) -> nat {
        match self {
            AnyDictionary::K8(d) => d.keys.length as nat,
            AnyDictionary::K16(d) => d.keys.length as nat,
            AnyDictionary::K32(d) => d.keys.length as nat,
            AnyDictionary::K64(d) => d.keys.length as nat,
            AnyDictionary::S8(d) => d.keys.length as nat,
            AnyDictionary::S16(d) => d.keys.length as nat,
            AnyDictionary::S32(d) => d.keys.length as nat,
            AnyDictionary::S64(d) => d.keys.length as nat,
        }
    }

    /// The validity of the key window.
    pub open spec fn keys_valids(&self) -> Seq<bool> {
        match self {
            AnyDictionary::K8(d) => d.keys.valids(),
            AnyDictionary::K16(d) => d.keys.valids(),
            AnyDictionary::K32(d) => d.keys.valids(),
            AnyDictionary::K64(d) => d.keys.valids(),
            AnyDictionary::S8(d) => d.keys.valids(),
            AnyDictionary::S16(d) => d.keys.valids(),
            AnyDictionary::S32(d) => d.keys.valids(),
            AnyDictionary::S64(d) => d.keys.valids(),
        }
    }

    /// The keys of the window, as mathematical integers.
    pub open spec fn keys_ints(&self) -> Seq<int> {
        match self {
            AnyDictionary::K8(d) => d.keys.ints(),
            AnyDictionary::K16(d) => d.keys.ints(),
            AnyDictionary::K32(d) => d.keys.ints(),
            AnyDictionary::K64(d) => d.keys.ints(),
            AnyDictionary::S8(d) => d.keys.ints(),
            AnyDictionary::S16(d) => d.keys.ints(),
            AnyDictionary::S32(d) => d.keys.ints(),
            AnyDictionary::S64(d) => d.keys.ints(),
        }
    }

    /// Well-formedness of the whole tree below this node.
    pub open spec fn ok(&self) -> bool
        decreases self,
    {
        match self {
            AnyDictionary::K8(d) => d.ok(),
            AnyDictionary::K16(d) => d.ok(),
            AnyDictionary::K32(d) => d.ok(),
            AnyDictionary::K64(d) => d.ok(),
            AnyDictionary::S8(d) => d.ok(),
            AnyDictionary::S16(d) => d.ok(),
            AnyDictionary::S32(d) => d.ok(),
            AnyDictionary::S64(d) => d.ok(),
        }
    }

    /// Ready for export.
    pub open spec fn spec_export_ready(&self) -> bool
        decreases self,
    {
        match self {
            AnyDictionary::K8(d) => d.export_ready(),
            AnyDictionary::K16(d) => d.export_ready(),
            AnyDictionary::K32(d) => d.export_ready(),
            AnyDictionary::K64(d) => d.export_ready(),
            AnyDictionary::S8(d) => d.export_ready(),
            AnyDictionary::S16(d) => d.export_ready(),
            AnyDictionary::S32(d) => d.export_ready(),
            AnyDictionary::S64(d) => d.export_ready(),
        }
    }

    /// The logical content of the window.
    pub open spec fn cells(&self) -> Seq<Cell>
        decreases self,
    {
        match self {
            AnyDictionary::K8(d) => d.cells(),
            AnyDictionary::K16(d) => d.cells(),
            AnyDictionary::K32(d) => d.cells(),
            AnyDictionary::K64(d) => d.cells(),
            AnyDictionary::S8(d) => d.cells(),
            AnyDictionary::S16(d) => d.cells(),
            AnyDictionary::S32(d) => d.cells(),
            AnyDictionary::S64(d) => d.cells(),
        }
    }

    /// The descriptor.
    pub fn dtype(&self) -> (r: &DataType)
        ensures
            r == &self.spec_dtype(),
    {
        match self {
            AnyDictionary::K8(d) => d.dtype(),
            AnyDictionary::K16(d) => d.dtype(),
            AnyDictionary::K32(d) => d.dtype(),
            AnyDictionary::K64(d) => d.dtype(),
            AnyDictionary::S8(d) => d.dtype(),
            AnyDictionary::S16(d) => d.dtype(),
            AnyDictionary::S32(d) => d.dtype(),
            AnyDictionary::S64(d) => d.dtype(),
        }
    }

    /// The number of elements of the key window.
    pub fn len(&self) -> (r: usize)
        ensures
            r == self.spec_len(),
    {
        match self {
            AnyDictionary::K8(d) => d.len(),
            AnyDictionary::K16(d) => d.len(),
            AnyDictionary::K32(d) => d.len(),
            AnyDictionary::K64(d) => d.len(),
            AnyDictionary::S8(d) => d.len(),
            AnyDictionary::S16(d) => d.len(),
            AnyDictionary::S32(d) => d.len(),
            AnyDictionary::S64(d) => d.len(),
        }
    }

    /// The number of null elements of the key window.
    pub fn null_count(&self) -> (r: usize)
        requires
            self.ok(),
        ensures
            r == crate::bitmap::count_false(self.keys_valids()),
            r <= self.spec_len(),
    {
        match self {
            AnyDictionary::K8(d) => d.keys.null_count(),
            AnyDictionary::K16(d) => d.keys.null_count(),
            AnyDictionary::K32(d) => d.keys.null_count(),
            AnyDictionary::K64(d) => d.keys.null_count(),
            AnyDictionary::S8(d) => d.keys.null_count(),
            AnyDictionary::S16(d) => d.keys.null_count(),
            AnyDictionary::S32(d) => d.keys.null_count(),
            AnyDictionary::S64(d) => d.keys.null_count(),
        }
    }
}

} // verus!
