//! Buffer geometry rules of the interchange struct, and the error
//! taxonomy of the import path.

use arrow_bridge::abi::ArrowArray;
use arrow_bridge::array::{AnyPrimitive, Array};
use arrow_bridge::buffer::{BufferData, ForeignBuffer};
use arrow_bridge::dtype::{get_child, DataType, IntegerType, PhysicalType};
use arrow_bridge::error::ArrowError;
use arrow_bridge::export::round_trip;
use arrow_bridge::import::import_node;
use arrow_bridge::varbin::BinaryArray;

fn string_struct(offset: i64, length: i64, offsets: Vec<i32>, data: Vec<u8>) -> ArrowArray {
    ArrowArray {
        length,
        null_count: 0,
        offset,
        n_buffers: 3,
        n_children: 0,
        buffers: Some(vec![
            None,
            Some(ForeignBuffer { addr: 0, data: BufferData::I32(offsets) }),
            Some(ForeignBuffer { addr: 0, data: BufferData::U8(data) }),
        ]),
        children: Some(vec![]),
        dictionary: None,
        release: false,
        private_data: None,
    }
}

#[test]
fn string_data_buffer_length_is_the_closing_offset() {
    // Offsets [0, 3, 3, 7]: three logical elements, one empty. The
    // data buffer must hold exactly 7 bytes (the closing offset).
    let a = Array::Binary(BinaryArray {
        dtype: DataType::Utf8,
        offsets: vec![0i32, 3, 3, 7],
        data: b"aaabbbb".to_vec(),
        offset: 0,
        length: 3,
        validity: None,
    });
    let t = ArrowArray::new(a);
    let bufs = t.buffers.as_ref().unwrap();
    assert_eq!(t.n_buffers, 3);
    match &bufs[1] {
        Some(fb) => match &fb.data {
            BufferData::I32(offs) => assert_eq!(offs, &vec![0, 3, 3, 7]),
            _ => panic!("offsets buffer kind"),
        },
        None => panic!("offsets buffer missing"),
    }
    match &bufs[2] {
        Some(fb) => match &fb.data {
            BufferData::U8(bytes) => assert_eq!(bytes.len(), 7),
            _ => panic!("data buffer kind"),
        },
        None => panic!("data buffer missing"),
    }
}

#[test]
fn declared_offset_exposes_the_trailing_window() {
    // The same buffers imported under a struct offset of 1 expose the
    // two elements starting at logical position 1.
    let t = string_struct(1, 2, vec![0, 3, 3, 7], b"aaabbbb".to_vec());
    let b = import_node(&t, &DataType::Utf8).unwrap();
    match b {
        Array::Binary(ba) => {
            assert_eq!(ba.len(), 2);
            assert_eq!(ba.value(0), Vec::<u8>::new());
            assert_eq!(ba.value(1), b"bbbb".to_vec());
        }
        _ => panic!("unexpected variant"),
    }
}

#[test]
fn offsets_buffer_needs_one_extra_entry() {
    // Three elements declared but only three offset entries: the
    // geometry demands length + 1 of them.
    let t = string_struct(0, 3, vec![0, 3, 3], b"aaabbbb".to_vec());
    let err = import_node(&t, &DataType::Utf8).unwrap_err();
    assert_eq!(err, ArrowError::BufferTooSmall { index: 1, need: 4, have: 3 });
}

#[test]
fn non_monotone_offsets_are_rejected() {
    let t = string_struct(0, 3, vec![0, 5, 3, 7], b"aaabbbb".to_vec());
    let err = import_node(&t, &DataType::Utf8).unwrap_err();
    assert_eq!(err, ArrowError::MalformedOffsets);
}

#[test]
fn negative_offsets_are_rejected() {
    let t = string_struct(0, 3, vec![0, -1, 3, 7], b"aaabbbb".to_vec());
    let err = import_node(&t, &DataType::Utf8).unwrap_err();
    assert_eq!(err, ArrowError::MalformedOffsets);
}

#[test]
fn short_data_buffer_is_rejected() {
    let t = string_struct(0, 3, vec![0, 3, 3, 7], b"aaab".to_vec());
    let err = import_node(&t, &DataType::Utf8).unwrap_err();
    assert_eq!(err, ArrowError::BufferTooSmall { index: 2, need: 7, have: 4 });
}

#[test]
fn missing_and_null_buffers_are_reported() {
    let mut t = string_struct(0, 1, vec![0, 1], b"a".to_vec());
    t.buffers = None;
    assert_eq!(import_node(&t, &DataType::Utf8).unwrap_err(), ArrowError::NullBuffers);

    let mut t = string_struct(0, 1, vec![0, 1], b"a".to_vec());
    t.n_buffers = 1;
    assert_eq!(
        import_node(&t, &DataType::Utf8).unwrap_err(),
        ArrowError::BufferIndexOut { index: 1, n_buffers: 1 }
    );

    let mut t = string_struct(0, 1, vec![0, 1], b"a".to_vec());
    if let Some(bufs) = &mut t.buffers {
        bufs.truncate(1);
    }
    assert_eq!(
        import_node(&t, &DataType::Utf8).unwrap_err(),
        ArrowError::BuffersTooShort { index: 1, have: 1 }
    );

    let mut t = string_struct(0, 1, vec![0, 1], b"a".to_vec());
    if let Some(bufs) = &mut t.buffers {
        bufs[1] = None;
    }
    assert_eq!(
        import_node(&t, &DataType::Utf8).unwrap_err(),
        ArrowError::NullBufferAt { index: 1 }
    );
}

#[test]
fn wrong_buffer_kind_is_reported() {
    let mut t = string_struct(0, 1, vec![0, 1], b"a".to_vec());
    if let Some(bufs) = &mut t.buffers {
        bufs[1] = Some(ForeignBuffer { addr: 0, data: BufferData::I64(vec![0, 1]) });
    }
    assert_eq!(
        import_node(&t, &DataType::Utf8).unwrap_err(),
        ArrowError::WrongBufferKind { index: 1 }
    );
}

#[test]
fn negative_fields_are_rejected() {
    let mut t = string_struct(0, 1, vec![0, 1], b"a".to_vec());
    t.length = -2;
    assert_eq!(import_node(&t, &DataType::Utf8).unwrap_err(), ArrowError::FieldOutOfRange);
}

#[test]
fn list_child_errors_are_reported() {
    let dt = DataType::List(Box::new(DataType::Int32));
    let base = |children: Option<Vec<Option<Box<ArrowArray>>>>, n_children: i64| ArrowArray {
        length: 1,
        null_count: 0,
        offset: 0,
        n_buffers: 2,
        n_children,
        buffers: Some(vec![
            None,
            Some(ForeignBuffer { addr: 0, data: BufferData::I32(vec![0, 1]) }),
        ]),
        children,
        dictionary: None,
        release: false,
        private_data: None,
    };
    assert_eq!(import_node(&base(None, 1), &dt).unwrap_err(), ArrowError::NullChildren);
    assert_eq!(
        import_node(&base(Some(vec![]), 0), &dt).unwrap_err(),
        ArrowError::ChildIndexOut { index: 0, n_children: 0 }
    );
    assert_eq!(
        import_node(&base(Some(vec![]), 1), &dt).unwrap_err(),
        ArrowError::ChildrenTooShort { index: 0, have: 0 }
    );
    assert_eq!(
        import_node(&base(Some(vec![None]), 1), &dt).unwrap_err(),
        ArrowError::NullChildAt { index: 0 }
    );
}

#[test]
fn missing_dictionary_is_reported() {
    let t = ArrowArray {
        length: 1,
        null_count: 0,
        offset: 0,
        n_buffers: 2,
        n_children: 0,
        buffers: Some(vec![
            None,
            Some(ForeignBuffer { addr: 0, data: BufferData::U8(vec![0]) }),
        ]),
        children: Some(vec![]),
        dictionary: None,
        release: false,
        private_data: None,
    };
    let dt = DataType::Dictionary(IntegerType::UInt8, Box::new(DataType::Utf8), false);
    assert_eq!(import_node(&t, &dt).unwrap_err(), ArrowError::NullDictionary);
}

#[test]
fn imported_dictionary_keys_are_bounds_checked() {
    // A pool of one value but a key of 3: the checked constructor in
    // the import path must refuse it.
    let pool = ArrowArray {
        length: 1,
        null_count: 0,
        offset: 0,
        n_buffers: 3,
        n_children: 0,
        buffers: Some(vec![
            None,
            Some(ForeignBuffer { addr: 0, data: BufferData::I32(vec![0, 1]) }),
            Some(ForeignBuffer { addr: 0, data: BufferData::U8(b"x".to_vec()) }),
        ]),
        children: Some(vec![]),
        dictionary: None,
        release: false,
        private_data: None,
    };
    let t = ArrowArray {
        length: 1,
        null_count: 0,
        offset: 0,
        n_buffers: 2,
        n_children: 0,
        buffers: Some(vec![
            None,
            Some(ForeignBuffer { addr: 0, data: BufferData::U8(vec![3]) }),
        ]),
        children: Some(vec![]),
        dictionary: Some(Box::new(pool)),
        release: false,
        private_data: None,
    };
    let dt = DataType::Dictionary(IntegerType::UInt8, Box::new(DataType::Utf8), false);
    assert_eq!(
        import_node(&t, &dt).unwrap_err(),
        ArrowError::KeyOutOfBounds { key: 3, pool_size: 1 }
    );
}

#[test]
fn oversized_fixed_width_is_rejected() {
    let t = ArrowArray {
        length: 2,
        null_count: 0,
        offset: 0,
        n_buffers: 2,
        n_children: 0,
        buffers: Some(vec![
            None,
            Some(ForeignBuffer { addr: 0, data: BufferData::U8(vec![0; 8]) }),
        ]),
        children: Some(vec![]),
        dictionary: None,
        release: false,
        private_data: None,
    };
    let dt = DataType::FixedSizeBinary(i64::MAX as usize);
    assert_eq!(import_node(&t, &dt).unwrap_err(), ArrowError::LengthOverflow);
}

#[test]
fn malformed_views_are_rejected() {
    // A spilled view referencing a variadic buffer that is too short.
    let spilled: u128 = 16 | (0u128 << 64) | (0u128 << 96);
    let t = ArrowArray {
        length: 1,
        null_count: 0,
        offset: 0,
        n_buffers: 4,
        n_children: 0,
        buffers: Some(vec![
            None,
            Some(ForeignBuffer { addr: 0, data: BufferData::U128(vec![spilled]) }),
            Some(ForeignBuffer { addr: 0, data: BufferData::U8(vec![0; 8]) }),
            Some(ForeignBuffer { addr: 0, data: BufferData::I64(vec![8]) }),
        ]),
        children: Some(vec![]),
        dictionary: None,
        release: false,
        private_data: None,
    };
    assert_eq!(
        import_node(&t, &DataType::BinaryView).unwrap_err(),
        ArrowError::MalformedViews
    );
}

#[test]
fn child_type_rule_has_one_child_for_lists_only() {
    assert_eq!(
        get_child(&DataType::List(Box::new(DataType::Int8)), 0).unwrap(),
        DataType::Int8
    );
    assert_eq!(
        get_child(&DataType::Int8, 0).unwrap_err(),
        ArrowError::NoSuchChildType { index: 0 }
    );
    assert_eq!(
        get_child(&DataType::List(Box::new(DataType::Int8)), 1).unwrap_err(),
        ArrowError::NoSuchChildType { index: 1 }
    );
}

#[test]
fn physical_type_classifies_descriptors() {
    assert_eq!(DataType::Utf8.to_physical_type(), PhysicalType::Utf8);
    assert_eq!(
        DataType::FixedSizeBinary(4).to_physical_type(),
        PhysicalType::FixedSizeBinary
    );
    assert_eq!(
        DataType::Int16.to_physical_type(),
        PhysicalType::Primitive(IntegerType::Int16)
    );
    assert_eq!(
        DataType::Dictionary(IntegerType::UInt8, Box::new(DataType::Utf8), true)
            .to_physical_type(),
        PhysicalType::Dictionary(IntegerType::UInt8)
    );
    let dt = DataType::List(Box::new(DataType::Utf8));
    assert_eq!(dt.to_logical_type(), &dt);
}

#[test]
fn bitmap_counts_unset_bits_in_the_window() {
    let b = arrow_bridge::bitmap::Bitmap::from_bytes(vec![0b0101_0101u8], 2, 4).unwrap();
    assert_eq!(b.len(), 4);
    assert!(b.get(0));
    assert!(!b.get(1));
    assert_eq!(b.unset_bits(), 2);
    let s = b.sliced(1, 3);
    assert_eq!(s.unset_bits(), 2);
    assert_eq!(arrow_bridge::bitmap::bytes_for(9), 2);
}

#[test]
fn empty_window_needs_no_validity_buffer() {
    // Zero-length array declaring nulls: the importer accepts it
    // without any buffer 0.
    let t = ArrowArray {
        length: 0,
        null_count: 0,
        offset: 0,
        n_buffers: 2,
        n_children: 0,
        buffers: Some(vec![
            None,
            Some(ForeignBuffer { addr: 0, data: BufferData::I32(vec![]) }),
        ]),
        children: Some(vec![]),
        dictionary: None,
        release: false,
        private_data: None,
    };
    let b = import_node(&t, &DataType::Int32).unwrap();
    assert_eq!(b.len(), 0);
    assert_eq!(b.null_count(), 0);
}

#[test]
fn round_trip_preserves_every_value_of_a_window() {
    let a = Array::Primitive(AnyPrimitive::U16(arrow_bridge::primitive::PrimitiveArray {
        dtype: DataType::UInt16,
        values: vec![100u16, 200, 300, 400, 500],
        offset: 2,
        length: 3,
        validity: None,
    }));
    let b = round_trip(a).unwrap();
    match b {
        Array::Primitive(AnyPrimitive::U16(pa)) => {
            assert_eq!(pa.len(), 3);
            assert_eq!(pa.value(0), 300);
            assert_eq!(pa.value(1), 400);
            assert_eq!(pa.value(2), 500);
        }
        _ => panic!("unexpected variant"),
    }
}
