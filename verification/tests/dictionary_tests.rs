//! Dictionary array construction, the bounds invariant, slicing and
//! splitting.

use arrow_bridge::array::{new_empty_array, value_at, Array, ScalarValue};
use arrow_bridge::bitmap::Bitmap;
use arrow_bridge::dictionary::{check_dtype, DictionaryArray, DictionaryKey};
use arrow_bridge::dtype::{DataType, IntegerType};
use arrow_bridge::error::ArrowError;
use arrow_bridge::primitive::PrimitiveArray;

fn utf8_values(strings: &[&str]) -> Array {
    let mut offsets: Vec<i32> = vec![0];
    let mut data: Vec<u8> = Vec::new();
    for s in strings {
        data.extend_from_slice(s.as_bytes());
        offsets.push(data.len() as i32);
    }
    Array::Binary(arrow_bridge::varbin::BinaryArray {
        dtype: DataType::Utf8,
        offsets,
        data,
        offset: 0,
        length: strings.len(),
        validity: None,
    })
}

fn dict_dtype(key: IntegerType, inner: DataType) -> DataType {
    DataType::Dictionary(key, Box::new(inner), false)
}

fn keys_u8(vals: &[u8]) -> PrimitiveArray<u8> {
    PrimitiveArray::new(DataType::UInt8, vals.to_vec(), None)
}

#[test]
fn try_new_accepts_in_bounds_keys() {
    let values = utf8_values(&["a", "bb", "ccc"]);
    let d = DictionaryArray::<u8>::try_new(
        dict_dtype(IntegerType::UInt8, DataType::Utf8),
        keys_u8(&[0, 1, 2, 1, 0]),
        Box::new(values),
    )
    .unwrap();
    assert_eq!(d.len(), 5);
    assert_eq!(d.key_value(2), 2);
    assert_eq!(d.key_value(4), 0);
    assert!(!d.is_ordered());
}

#[test]
fn try_new_rejects_out_of_bounds_key() {
    let values = utf8_values(&["a", "bb", "ccc"]);
    let err = DictionaryArray::<u8>::try_new(
        dict_dtype(IntegerType::UInt8, DataType::Utf8),
        keys_u8(&[0, 1, 5]),
        Box::new(values),
    )
    .unwrap_err();
    assert_eq!(err, ArrowError::KeyOutOfBounds { key: 5, pool_size: 3 });
}

#[test]
fn try_new_rejects_unrepresentable_key() {
    let values = utf8_values(&["a", "bb"]);
    let keys = PrimitiveArray::new(DataType::Int8, vec![0i8, -1], None);
    let err = DictionaryArray::<i8>::try_new(
        dict_dtype(IntegerType::Int8, DataType::Utf8),
        keys,
        Box::new(values),
    )
    .unwrap_err();
    assert_eq!(err, ArrowError::KeyUnrepresentable { position: 1 });
}

#[test]
fn try_new_rejects_wrong_descriptor() {
    let values = utf8_values(&["a"]);
    let err = DictionaryArray::<u8>::try_new(DataType::Utf8, keys_u8(&[0]), Box::new(values))
        .unwrap_err();
    assert_eq!(err, ArrowError::NotADictionaryType);

    let values = utf8_values(&["a"]);
    let err = DictionaryArray::<u8>::try_new(
        dict_dtype(IntegerType::UInt16, DataType::Utf8),
        keys_u8(&[0]),
        Box::new(values),
    )
    .unwrap_err();
    assert_eq!(err, ArrowError::KeyTypeMismatch);

    let values = utf8_values(&["a"]);
    let err = DictionaryArray::<u8>::try_new(
        dict_dtype(IntegerType::UInt8, DataType::Int32),
        keys_u8(&[0]),
        Box::new(values),
    )
    .unwrap_err();
    assert_eq!(err, ArrowError::ValueTypeMismatch);
}

#[test]
fn check_dtype_reports_each_mismatch() {
    let dict = dict_dtype(IntegerType::UInt8, DataType::Utf8);
    assert!(check_dtype(IntegerType::UInt8, &dict, &DataType::Utf8).is_ok());
    assert_eq!(
        check_dtype(IntegerType::UInt16, &dict, &DataType::Utf8).unwrap_err(),
        ArrowError::KeyTypeMismatch
    );
    assert_eq!(
        check_dtype(IntegerType::UInt8, &dict, &DataType::Int64).unwrap_err(),
        ArrowError::ValueTypeMismatch
    );
    assert_eq!(
        check_dtype(IntegerType::UInt8, &DataType::Boolean, &DataType::Utf8).unwrap_err(),
        ArrowError::NotADictionaryType
    );
}

#[test]
fn all_null_keys_skip_the_scan() {
    // Every key slot is null, so no key is ever read and the scan is
    // skipped even though the raw key values exceed the pool.
    let values = utf8_values(&["a"]);
    let validity = Bitmap::from_bytes(vec![0u8], 0, 3).unwrap();
    let keys = PrimitiveArray::new(DataType::UInt8, vec![9u8, 9, 9], Some(validity));
    let d = DictionaryArray::<u8>::try_new(
        dict_dtype(IntegerType::UInt8, DataType::Utf8),
        keys,
        Box::new(values),
    )
    .unwrap();
    assert_eq!(d.len(), 3);
}

#[test]
fn try_from_keys_uses_default_descriptor() {
    let values = utf8_values(&["x", "y"]);
    let d = DictionaryArray::<u16>::try_from_keys(
        PrimitiveArray::new(DataType::UInt16, vec![1u16, 0], None),
        Box::new(values),
    )
    .unwrap();
    match d.dtype() {
        DataType::Dictionary(k, inner, ordered) => {
            assert_eq!(*k, IntegerType::UInt16);
            assert_eq!(**inner, DataType::Utf8);
            assert!(!ordered);
        }
        other => panic!("unexpected descriptor {:?}", other),
    }
}

#[test]
fn try_new_unchecked_checks_descriptor_only() {
    let values = utf8_values(&["x", "y"]);
    let d = DictionaryArray::<u8>::try_new_unchecked(
        dict_dtype(IntegerType::UInt8, DataType::Utf8),
        keys_u8(&[1, 0, 1]),
        Box::new(values),
    )
    .unwrap();
    assert_eq!(d.len(), 3);
    let values = utf8_values(&["x"]);
    let err = DictionaryArray::<u8>::try_new_unchecked(
        DataType::Int8,
        keys_u8(&[0]),
        Box::new(values),
    )
    .unwrap_err();
    assert_eq!(err, ArrowError::NotADictionaryType);
}

#[test]
fn slice_narrows_keys_only() {
    let values = utf8_values(&["a", "b", "c"]);
    let mut d = DictionaryArray::<u8>::try_new(
        dict_dtype(IntegerType::UInt8, DataType::Utf8),
        keys_u8(&[0, 1, 2, 1]),
        Box::new(values),
    )
    .unwrap();
    d.slice(1, 2);
    assert_eq!(d.len(), 2);
    assert_eq!(d.key_value(0), 1);
    assert_eq!(d.key_value(1), 2);
    assert_eq!(d.values().len(), 3);

    let mut d2 = DictionaryArray::<u8>::try_new(
        dict_dtype(IntegerType::UInt8, DataType::Utf8),
        keys_u8(&[0, 1, 2, 1]),
        Box::new(utf8_values(&["a", "b", "c"])),
    )
    .unwrap();
    d2.slice_unchecked(2, 2);
    assert_eq!(d2.len(), 2);
    assert_eq!(d2.key_value(0), 2);
}

#[test]
fn split_at_keeps_shared_pool_and_disjoint_windows() {
    // An array of length 10 split at 4: halves of length 4 and 6 over
    // the same pool, with non-overlapping key windows.
    let values = utf8_values(&["a", "b", "c", "d", "e"]);
    let d = DictionaryArray::<u8>::try_new(
        dict_dtype(IntegerType::UInt8, DataType::Utf8),
        keys_u8(&[0, 1, 2, 3, 4, 0, 1, 2, 3, 4]),
        Box::new(values),
    )
    .unwrap();
    assert!(d.check_bound(4));
    let (lhs, rhs) = d.split_at(4);
    assert_eq!(lhs.len(), 4);
    assert_eq!(rhs.len(), 6);
    assert_eq!(lhs.values().len(), 5);
    assert_eq!(rhs.values().len(), 5);
    for i in 0..4 {
        assert_eq!(lhs.key_value(i), d.key_value(i));
    }
    for i in 0..6 {
        assert_eq!(rhs.key_value(i), d.key_value(4 + i));
    }
}

#[test]
fn with_validity_replaces_key_validity() {
    let values = utf8_values(&["a", "b"]);
    let d = DictionaryArray::<u8>::try_new(
        dict_dtype(IntegerType::UInt8, DataType::Utf8),
        keys_u8(&[0, 1, 0]),
        Box::new(values),
    )
    .unwrap();
    let v = Bitmap::from_bytes(vec![0b101u8], 0, 3).unwrap();
    let d = d.with_validity(Some(v));
    let got = d.validity().as_ref().unwrap();
    assert!(got.get(0));
    assert!(!got.get(1));
    assert!(got.get(2));
}

#[test]
fn new_empty_and_new_null() {
    let dt = dict_dtype(IntegerType::UInt32, DataType::Utf8);
    let e = DictionaryArray::<u32>::new_empty(dt);
    assert_eq!(e.len(), 0);

    let dt = dict_dtype(IntegerType::UInt8, DataType::Int64);
    let n = DictionaryArray::<u8>::new_null(dt, 4);
    assert_eq!(n.len(), 4);
    let v = n.validity().as_ref().unwrap();
    for i in 0..4 {
        assert!(!v.get(i));
    }
    assert_eq!(n.values().len(), 1);
}

#[test]
fn key_capability_constants() {
    assert_eq!(<u8 as DictionaryKey>::key_type(), IntegerType::UInt8);
    assert_eq!(<i64 as DictionaryKey>::key_type(), IntegerType::Int64);
    assert_eq!(<u8 as DictionaryKey>::max_usize_value(), 255);
    assert_eq!(<i16 as DictionaryKey>::max_usize_value(), 32767);
    assert!(<u8 as DictionaryKey>::always_fits_usize());
    assert!(<u16 as DictionaryKey>::always_fits_usize());
    assert!(!<i8 as DictionaryKey>::always_fits_usize());
    assert_eq!(<u8 as DictionaryKey>::try_as_usize(7u8), Some(7));
    assert_eq!(<i8 as DictionaryKey>::try_as_usize(-1i8), None);
    assert_eq!(<u16 as DictionaryKey>::as_usize(9u16), 9);
    assert_eq!(<u8 as DictionaryKey>::from_usize_unchecked(200), 200u8);
}

#[test]
fn take_returns_the_parts() {
    let values = utf8_values(&["a", "b"]);
    let d = DictionaryArray::<u8>::try_new(
        dict_dtype(IntegerType::UInt8, DataType::Utf8),
        keys_u8(&[1, 0]),
        Box::new(values),
    )
    .unwrap();
    let (dt, keys, vals) = d.take();
    assert!(matches!(dt, DataType::Dictionary(..)));
    assert_eq!(keys.len(), 2);
    assert_eq!(vals.len(), 2);
}

#[test]
fn empty_array_of_each_type_is_empty() {
    for dt in [
        DataType::Null,
        DataType::Boolean,
        DataType::Int32,
        DataType::Utf8,
        DataType::LargeBinary,
        DataType::FixedSizeBinary(3),
        DataType::List(Box::new(DataType::Int8)),
        DataType::FixedSizeList(Box::new(DataType::UInt16), 2),
        DataType::BinaryView,
        DataType::Dictionary(IntegerType::UInt8, Box::new(DataType::Utf8), false),
    ] {
        let a = new_empty_array(dt);
        assert_eq!(a.len(), 0);
        assert_eq!(a.null_count(), 0);
    }
}

#[test]
fn values_resolve_through_the_pool() {
    let values = utf8_values(&["low", "mid", "high"]);
    let validity = Bitmap::from_bytes(vec![0b1101u8], 0, 4).unwrap();
    let keys = PrimitiveArray::new(DataType::UInt8, vec![2u8, 0, 1, 0], Some(validity));
    let d = DictionaryArray::<u8>::try_new(
        dict_dtype(IntegerType::UInt8, DataType::Utf8),
        keys,
        Box::new(values),
    )
    .unwrap();
    assert_eq!(d.value(0), ScalarValue::Bytes(b"high".to_vec()));
    assert_eq!(d.value(3), ScalarValue::Bytes(b"low".to_vec()));

    let all = d.values_iter();
    assert_eq!(all.len(), 4);
    assert_eq!(all[1], ScalarValue::Bytes(b"low".to_vec()));
    assert_eq!(all[2], ScalarValue::Bytes(b"mid".to_vec()));

    let opt = d.iter();
    assert_eq!(opt.len(), 4);
    assert_eq!(opt[0], Some(ScalarValue::Bytes(b"high".to_vec())));
    assert_eq!(opt[1], None);
    assert_eq!(opt[2], Some(ScalarValue::Bytes(b"mid".to_vec())));
}

#[test]
fn scalar_access_reaches_nested_values() {
    let child = Array::Primitive(arrow_bridge::array::AnyPrimitive::I32(PrimitiveArray::new(
        DataType::Int32,
        vec![1, 2, 3],
        None,
    )));
    let a = Array::List(arrow_bridge::list::ListArray {
        dtype: DataType::List(Box::new(DataType::Int32)),
        offsets: vec![0i32, 2, 3],
        child: Box::new(child),
        offset: 0,
        length: 2,
        validity: None,
    });
    assert_eq!(
        value_at(&a, 0),
        ScalarValue::Rows(vec![ScalarValue::Int(1), ScalarValue::Int(2)])
    );
    assert_eq!(value_at(&a, 1), ScalarValue::Rows(vec![ScalarValue::Int(3)]));
    assert!(a.is_valid(0));
}

#[test]
fn key_index_accessors_expose_the_window() {
    let values = utf8_values(&["a", "b", "c"]);
    let validity = Bitmap::from_bytes(vec![0b101u8], 0, 3).unwrap();
    let keys = PrimitiveArray::new(DataType::UInt8, vec![2u8, 0, 1], Some(validity));
    let d = DictionaryArray::<u8>::try_new(
        dict_dtype(IntegerType::UInt8, DataType::Utf8),
        keys,
        Box::new(values),
    )
    .unwrap();
    assert_eq!(d.keys_values_iter(), vec![2, 0, 1]);
    assert_eq!(d.keys_iter(), vec![Some(2), None, Some(1)]);
}

#[test]
fn new_null_pool_holds_one_value() {
    let dt = dict_dtype(IntegerType::UInt16, DataType::Utf8);
    let n = DictionaryArray::<u16>::new_null(dt, 3);
    assert_eq!(n.values().len(), 1);
    let e = DictionaryArray::<u16>::new_empty(dict_dtype(IntegerType::UInt16, DataType::Utf8));
    assert_eq!(e.values().len(), 0);
}
