//! Export/import round trips for every physical layout, buffer
//! geometry, the alignment fallback, and the release protocol.

use arrow_bridge::abi::ArrowArray;
use arrow_bridge::array::{Array, BooleanArray, NullArray, AnyPrimitive};
use arrow_bridge::binview::BinViewArray;
use arrow_bridge::bitmap::Bitmap;
use arrow_bridge::buffer::{BufferData, ForeignBuffer};
use arrow_bridge::dictionary::{AnyDictionary, DictionaryArray};
use arrow_bridge::dtype::{DataType, IntegerType};
use arrow_bridge::error::ArrowError;
use arrow_bridge::export::round_trip;
use arrow_bridge::fixed::{FixedSizeBinaryArray, FixedSizeListArray};
use arrow_bridge::handle::{child_of, dictionary_of, try_from, validity_of, ArrowArrayRef, InternalArrowArray};
use arrow_bridge::import::import_node;
use arrow_bridge::list::ListArray;
use arrow_bridge::primitive::PrimitiveArray;
use arrow_bridge::varbin::{check_offsets, BinaryArray};

fn int32(vals: &[i32], validity_bits: Option<(Vec<u8>, usize)>) -> Array {
    let validity =
        validity_bits.map(|(bytes, len)| Bitmap::from_bytes(bytes, 0, len).unwrap());
    Array::Primitive(AnyPrimitive::I32(PrimitiveArray::new(
        DataType::Int32,
        vals.to_vec(),
        validity,
    )))
}

fn utf8(strings: &[&str]) -> Array {
    let mut offsets: Vec<i32> = vec![0];
    let mut data: Vec<u8> = Vec::new();
    for s in strings {
        data.extend_from_slice(s.as_bytes());
        offsets.push(data.len() as i32);
    }
    Array::Binary(BinaryArray {
        dtype: DataType::Utf8,
        offsets,
        data,
        offset: 0,
        length: strings.len(),
        validity: None,
    })
}

fn roundtrip_and_check(a: Array) -> Array {
    let expected_len = a.len();
    let expected_nulls = a.null_count();
    let b = round_trip(a).unwrap();
    assert_eq!(b.len(), expected_len);
    assert_eq!(b.null_count(), expected_nulls);
    b
}

#[test]
fn round_trip_null_array() {
    let b = roundtrip_and_check(Array::Null(NullArray::new(DataType::Null, 5)));
    assert_eq!(b.len(), 5);
    assert_eq!(b.null_count(), 5);
}

#[test]
fn round_trip_boolean() {
    let values = Bitmap::from_bytes(vec![0b0110_1001u8], 0, 8).unwrap();
    let validity = Bitmap::from_bytes(vec![0b1111_0111u8], 0, 8).unwrap();
    let a = Array::Boolean(BooleanArray {
        dtype: DataType::Boolean,
        values,
        validity: Some(validity),
    });
    let b = roundtrip_and_check(a);
    match b {
        Array::Boolean(bb) => {
            assert!(bb.values.get(0));
            assert!(!bb.values.get(1));
            assert!(bb.values.get(3));
        }
        other => panic!("unexpected variant {:?}", other.len()),
    }
}

#[test]
fn round_trip_primitive_with_validity() {
    let a = int32(&[10, -20, 30, 40], Some((vec![0b1011u8], 4)));
    let b = roundtrip_and_check(a);
    match b {
        Array::Primitive(AnyPrimitive::I32(pa)) => {
            assert_eq!(pa.value(0), 10);
            assert_eq!(pa.value(1), -20);
            assert_eq!(pa.value(3), 40);
            assert_eq!(pa.null_count(), 1);
        }
        _ => panic!("unexpected variant"),
    }
}

#[test]
fn round_trip_each_primitive_width() {
    let arrays = vec![
        Array::Primitive(AnyPrimitive::U8(PrimitiveArray::new(DataType::UInt8, vec![1u8, 255], None))),
        Array::Primitive(AnyPrimitive::U16(PrimitiveArray::new(DataType::UInt16, vec![7u16], None))),
        Array::Primitive(AnyPrimitive::U32(PrimitiveArray::new(DataType::UInt32, vec![9u32], None))),
        Array::Primitive(AnyPrimitive::U64(PrimitiveArray::new(DataType::UInt64, vec![u64::MAX], None))),
        Array::Primitive(AnyPrimitive::I8(PrimitiveArray::new(DataType::Int8, vec![-1i8], None))),
        Array::Primitive(AnyPrimitive::I16(PrimitiveArray::new(DataType::Int16, vec![-2i16], None))),
        Array::Primitive(AnyPrimitive::I64(PrimitiveArray::new(DataType::Int64, vec![i64::MIN], None))),
    ];
    for a in arrays {
        roundtrip_and_check(a);
    }
}

#[test]
fn round_trip_utf8_strings() {
    let a = utf8(&["hello", "", "world"]);
    let b = roundtrip_and_check(a);
    match b {
        Array::Binary(ba) => {
            assert_eq!(ba.value(0), b"hello".to_vec());
            assert_eq!(ba.value(1), Vec::<u8>::new());
            assert_eq!(ba.value(2), b"world".to_vec());
        }
        _ => panic!("unexpected variant"),
    }
}

#[test]
fn round_trip_large_binary() {
    let a = Array::LargeBinary(BinaryArray {
        dtype: DataType::LargeBinary,
        offsets: vec![0i64, 2, 2, 5],
        data: b"abcde".to_vec(),
        offset: 0,
        length: 3,
        validity: None,
    });
    let b = roundtrip_and_check(a);
    match b {
        Array::LargeBinary(ba) => {
            assert_eq!(ba.value(0), b"ab".to_vec());
            assert_eq!(ba.value(2), b"cde".to_vec());
        }
        _ => panic!("unexpected variant"),
    }
}

#[test]
fn round_trip_fixed_size_binary() {
    let a = Array::FixedSizeBinary(FixedSizeBinaryArray {
        dtype: DataType::FixedSizeBinary(2),
        data: b"aabbcc".to_vec(),
        offset: 1,
        length: 2,
        validity: None,
    });
    let b = roundtrip_and_check(a);
    assert_eq!(b.len(), 2);
    match b {
        Array::FixedSizeBinary(fa) => {
            assert_eq!(&fa.data[fa.offset * 2..fa.offset * 2 + 2], b"bb");
        }
        _ => panic!("unexpected variant"),
    }
}

#[test]
fn round_trip_list_of_ints() {
    let child = int32(&[1, 2, 3, 4, 5], None);
    let a = Array::List(ListArray {
        dtype: DataType::List(Box::new(DataType::Int32)),
        offsets: vec![0i32, 2, 2, 5],
        child: Box::new(child),
        offset: 0,
        length: 3,
        validity: None,
    });
    let b = roundtrip_and_check(a);
    match b {
        Array::List(la) => {
            assert_eq!(la.len(), 3);
            assert_eq!(la.child.len(), 5);
        }
        _ => panic!("unexpected variant"),
    }
}

#[test]
fn round_trip_fixed_size_list() {
    let child = int32(&[1, 2, 3, 4, 5, 6], None);
    let a = Array::FixedSizeList(FixedSizeListArray {
        dtype: DataType::FixedSizeList(Box::new(DataType::Int32), 2),
        child: Box::new(child),
        offset: 0,
        length: 3,
        validity: None,
    });
    let b = roundtrip_and_check(a);
    assert_eq!(b.len(), 3);
}

#[test]
fn round_trip_view_encoded_strings() {
    // One inline view ("hi", length 2) and one spilled view of 16
    // bytes referencing variadic buffer 0 at offset 4.
    let inline: u128 = 2 | ((b'h' as u128) << 32) | ((b'i' as u128) << 40);
    let spilled: u128 = 16 | (0u128 << 64) | (4u128 << 96);
    let payload: Vec<u8> = (0u8..24).collect();
    let a = Array::BinView(BinViewArray {
        dtype: DataType::Utf8View,
        views: vec![inline, spilled],
        data_buffers: vec![payload],
        offset: 0,
        length: 2,
        validity: None,
    });
    let b = roundtrip_and_check(a);
    match b {
        Array::BinView(va) => {
            assert_eq!(va.len(), 2);
            assert_eq!(va.data_buffers.len(), 1);
            assert_eq!(va.data_buffers[0].len(), 24);
            assert_eq!(va.views[0], inline);
            assert_eq!(va.views[1], spilled);
        }
        _ => panic!("unexpected variant"),
    }
}

#[test]
fn round_trip_dictionary() {
    let values = utf8(&["low", "high"]);
    let d = DictionaryArray::<u8>::try_new(
        DataType::Dictionary(IntegerType::UInt8, Box::new(DataType::Utf8), false),
        PrimitiveArray::new(DataType::UInt8, vec![0u8, 1, 1, 0], None),
        Box::new(values),
    )
    .unwrap();
    let b = roundtrip_and_check(Array::Dictionary(AnyDictionary::K8(d)));
    match b {
        Array::Dictionary(AnyDictionary::K8(dd)) => {
            assert_eq!(dd.len(), 4);
            assert_eq!(dd.key_value(1), 1);
            assert_eq!(dd.values().len(), 2);
        }
        _ => panic!("unexpected variant"),
    }
}

#[test]
fn round_trip_sliced_window() {
    // A window into the middle of a buffer: offset 1, length 2.
    let validity = Bitmap::from_bytes(vec![0b0110u8], 1, 2).unwrap();
    let a = Array::Primitive(AnyPrimitive::I32(PrimitiveArray {
        dtype: DataType::Int32,
        values: vec![9, 10, 11, 12],
        offset: 1,
        length: 2,
        validity: Some(validity),
    }));
    let b = roundtrip_and_check(a);
    match b {
        Array::Primitive(AnyPrimitive::I32(pa)) => {
            assert_eq!(pa.len(), 2);
            assert_eq!(pa.value(0), 10);
            assert_eq!(pa.value(1), 11);
        }
        _ => panic!("unexpected variant"),
    }
}

#[test]
fn release_fires_once_per_node() {
    // A list with one child exports as two nodes; a dictionary adds
    // one more. Each release call tears down each node exactly once,
    // and a second release is a no-op.
    let child = int32(&[1, 2], None);
    let a = Array::List(ListArray {
        dtype: DataType::List(Box::new(DataType::Int32)),
        offsets: vec![0i32, 1, 2],
        child: Box::new(child),
        offset: 0,
        length: 2,
        validity: None,
    });
    let mut t = ArrowArray::new(a);
    assert_eq!(t.release(), 2);
    assert_eq!(t.release(), 0);

    let values = utf8(&["v"]);
    let d = DictionaryArray::<u8>::try_new(
        DataType::Dictionary(IntegerType::UInt8, Box::new(DataType::Utf8), false),
        PrimitiveArray::new(DataType::UInt8, vec![0u8], None),
        Box::new(values),
    )
    .unwrap();
    let mut t = ArrowArray::new(Array::Dictionary(AnyDictionary::K8(d)));
    assert_eq!(t.release(), 2);
    assert_eq!(t.release(), 0);
}

#[test]
fn empty_struct_has_no_release_duty() {
    let mut t = ArrowArray::empty();
    assert_eq!(t.release(), 0);
    assert_eq!(t.release(), 0);
}

#[test]
fn import_through_the_capability_object() {
    let a = int32(&[5, 6, 7], None);
    let t = ArrowArray::new(a);
    let handle = InternalArrowArray::new(t, DataType::Int32);
    let b = try_from(&handle).unwrap();
    assert_eq!(b.len(), 3);
    match b {
        Array::Primitive(AnyPrimitive::I32(pa)) => {
            assert_eq!(pa.value(2), 7);
        }
        _ => panic!("unexpected variant"),
    }
}

#[test]
fn misaligned_buffer_takes_the_copy_path_with_identical_values() {
    // Two structs describing the same data, one with the value buffer
    // at an aligned address and one deliberately off by one byte. The
    // misaligned import must fall back to a copy and produce the same
    // values.
    let mk = |addr: usize| ArrowArray {
        length: 2,
        null_count: 0,
        offset: 1,
        n_buffers: 2,
        n_children: 0,
        buffers: Some(vec![
            None,
            Some(ForeignBuffer {
                addr,
                data: BufferData::I32(vec![7, 8, 9]),
            }),
        ]),
        children: Some(vec![]),
        dictionary: None,
        release: false,
        private_data: None,
    };
    let aligned = import_node(&mk(0), &DataType::Int32).unwrap();
    let offbyone = import_node(&mk(1), &DataType::Int32).unwrap();
    let (pa, pb) = match (aligned, offbyone) {
        (Array::Primitive(AnyPrimitive::I32(x)), Array::Primitive(AnyPrimitive::I32(y))) => (x, y),
        _ => panic!("unexpected variants"),
    };
    // Identical logical values...
    assert_eq!(pa.len(), 2);
    assert_eq!(pb.len(), 2);
    assert_eq!(pa.value(0), 8);
    assert_eq!(pb.value(0), 8);
    assert_eq!(pa.value(1), 9);
    assert_eq!(pb.value(1), 9);
    // ...via different paths: the aligned one wraps the whole prefix,
    // the misaligned one re-bases a copy of the window.
    assert_eq!(pa.offset, 1);
    assert_eq!(pa.values.len(), 3);
    assert_eq!(pb.offset, 0);
    assert_eq!(pb.values.len(), 2);
}

#[test]
fn capability_views_resolve_children_and_dictionaries() {
    let child = int32(&[1, 2, 3], Some((vec![0b011u8], 3)));
    let a = Array::List(ListArray {
        dtype: DataType::List(Box::new(DataType::Int32)),
        offsets: vec![0i32, 1, 3],
        child: Box::new(child),
        offset: 0,
        length: 2,
        validity: None,
    });
    let t = ArrowArray::new(a);
    let handle = InternalArrowArray::new(t, DataType::List(Box::new(DataType::Int32)));
    assert_eq!(handle.length(), 2);
    assert_eq!(handle.offset(), 0);
    assert_eq!(handle.n_buffers(), 2);
    assert!(validity_of(&handle).unwrap().is_none());
    let c = child_of(&handle, 0).unwrap();
    assert_eq!(c.length(), 3);
    let v = validity_of(&c).unwrap().unwrap();
    assert!(v.get(0));
    assert!(!v.get(2));
    assert!(dictionary_of(&handle).unwrap().is_none());
    let _owner = handle.owner();

    let values = utf8(&["v"]);
    let d = DictionaryArray::<u8>::try_new(
        DataType::Dictionary(IntegerType::UInt8, Box::new(DataType::Utf8), false),
        PrimitiveArray::new(DataType::UInt8, vec![0u8], None),
        Box::new(values),
    )
    .unwrap();
    let t = ArrowArray::new(Array::Dictionary(AnyDictionary::K8(d)));
    let dt = DataType::Dictionary(IntegerType::UInt8, Box::new(DataType::Utf8), false);
    let handle = InternalArrowArray::new(t, dt);
    let dict_view = dictionary_of(&handle).unwrap().unwrap();
    assert_eq!(dict_view.length(), 1);
    let pool = try_from(&dict_view).unwrap();
    assert_eq!(pool.len(), 1);
}

#[test]
fn offsets_scan_accepts_exactly_valid_geometries() {
    assert!(check_offsets(&vec![0i32, 3, 3, 7], 7));
    assert!(!check_offsets(&vec![0i32, 3, 3, 7], 6));
    assert!(!check_offsets(&vec![0i32, 5, 3], 7));
    assert!(!check_offsets(&vec![-1i32, 3], 7));
    assert!(!check_offsets(&Vec::<i32>::new(), 7));
}

#[test]
fn round_trip_map_entries() {
    // The map layout shares the 32-bit list geometry: offsets over
    // one entries child.
    let entries = utf8(&["k1", "k2", "k3"]);
    let a = Array::MapList(ListArray {
        dtype: DataType::MapList(Box::new(DataType::Utf8), false),
        offsets: vec![0i32, 1, 3],
        child: Box::new(entries),
        offset: 0,
        length: 2,
        validity: None,
    });
    let b = roundtrip_and_check(a);
    match b {
        Array::MapList(la) => {
            assert_eq!(la.len(), 2);
            assert_eq!(la.child.len(), 3);
            assert_eq!(la.offsets, vec![0, 1, 3]);
        }
        _ => panic!("unexpected variant"),
    }
}

#[test]
fn round_trip_zero_width_fixed_binary() {
    // A fixed width of zero is allowed; every element is empty.
    let a = Array::FixedSizeBinary(FixedSizeBinaryArray {
        dtype: DataType::FixedSizeBinary(0),
        data: Vec::new(),
        offset: 0,
        length: 3,
        validity: None,
    });
    let b = roundtrip_and_check(a);
    assert_eq!(b.len(), 3);
}

#[test]
fn empty_value_window_accepts_a_null_buffer() {
    // A zero-length primitive needs no value buffer: a null pointer
    // in slot 1 is accepted, as producers publish for empty arrays.
    let t = ArrowArray {
        length: 0,
        null_count: 0,
        offset: 0,
        n_buffers: 2,
        n_children: 0,
        buffers: Some(vec![None, None]),
        children: Some(vec![]),
        dictionary: None,
        release: false,
        private_data: None,
    };
    let b = import_node(&t, &DataType::Int32).unwrap();
    assert_eq!(b.len(), 0);
}

#[test]
fn validity_window_may_start_anywhere() {
    // After slicing, a freshly built zero-based bitmap is accepted as
    // the new validity.
    let mut pa = PrimitiveArray::new(DataType::Int32, vec![1i32, 2, 3, 4], None);
    pa.slice(2, 2);
    let v = Bitmap::from_bytes(vec![0b01u8], 0, 2).unwrap();
    pa.set_validity(Some(v));
    assert_eq!(pa.null_count(), 1);
    assert_eq!(pa.value(0), 3);
}
