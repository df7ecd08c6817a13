use std::collections::VecDeque;

use ipc_mmap::builders::{get_array, mmap};
use ipc_mmap::decode::{decode_i32_column, decode_utf8_column};
use ipc_mmap::dict::Dictionaries;
use ipc_mmap::error::Error;
use ipc_mmap::handle::{clone_array, BufferRange};
use ipc_mmap::schema::{DataType, IpcBuffer, IpcField, Node, PrimWidth};

fn leaf_field() -> IpcField {
    IpcField { fields: Vec::new(), dictionary_id: None }
}

fn nodes(list: &[(i64, i64)]) -> VecDeque<Node> {
    list.iter().map(|&(length, null_count)| Node { length, null_count }).collect()
}

fn buffers(list: &[(i64, i64)]) -> VecDeque<IpcBuffer> {
    list.iter().map(|&(offset, length)| IpcBuffer { offset, length }).collect()
}

/// Scenario A data: validity byte 0b00010111 at 0, five i32 values at 8.
fn int32_column_data() -> Vec<u8> {
    let mut data = vec![0u8; 8];
    data[0] = 0b00010111;
    for v in [1i32, 2, 3, 4, 0] {
        data.extend_from_slice(&v.to_le_bytes());
    }
    data
}

#[test]
fn scenario_a_int32_nulls() {
    let data = int32_column_data();
    let mut fns = nodes(&[(5, 1)]);
    let mut bufs = buffers(&[(0, 1), (8, 20)]);
    let arr = get_array(
        &data,
        0,
        &DataType::Primitive(PrimWidth::W4),
        &leaf_field(),
        &Dictionaries::new(),
        &mut fns,
        &mut bufs,
    )
    .unwrap();
    assert_eq!(arr.length, 5);
    assert_eq!(arr.null_count, 1);
    assert_eq!(arr.offset, 0);
    assert_eq!(arr.buffers.len(), 2);
    assert_eq!(arr.buffers[0], Some(BufferRange { offset: 0, length: 1 }));
    assert_eq!(arr.buffers[1], Some(BufferRange { offset: 8, length: 20 }));
    assert!(fns.is_empty());
    assert!(bufs.is_empty());
    let decoded = decode_i32_column(&data, &arr);
    assert_eq!(decoded, vec![Some(1), Some(2), Some(3), None, Some(0)]);
}

#[test]
fn scenario_b_utf8_nulls() {
    // "a", "aa", None with offsets [0, 1, 3, 3], values "aaa",
    // validity 0b011 (bit 2 cleared).
    let mut data = vec![0u8; 8];
    data[0] = 0b011;
    for o in [0i32, 1, 3, 3] {
        data.extend_from_slice(&o.to_le_bytes());
    }
    data.extend_from_slice(b"aaa");
    let mut fns = nodes(&[(3, 1)]);
    let mut bufs = buffers(&[(0, 1), (8, 16), (24, 3)]);
    let arr = get_array(
        &data,
        0,
        &DataType::Utf8,
        &leaf_field(),
        &Dictionaries::new(),
        &mut fns,
        &mut bufs,
    )
    .unwrap();
    assert_eq!(arr.buffers.len(), 3);
    let decoded = decode_utf8_column(&data, &arr);
    assert_eq!(
        decoded,
        vec![Some(b"a".to_vec()), Some(b"aa".to_vec()), None]
    );
}

#[test]
fn scenario_c_missing_dictionary() {
    let data = int32_column_data();
    let mut fns = nodes(&[(5, 0)]);
    let mut bufs = buffers(&[(0, 1), (8, 20)]);
    let field = IpcField { fields: Vec::new(), dictionary_id: Some(7) };
    let r = get_array(
        &data,
        0,
        &DataType::Dictionary(PrimWidth::W4),
        &field,
        &Dictionaries::new(),
        &mut fns,
        &mut bufs,
    );
    assert_eq!(r.unwrap_err(), Error::MissingDictionary);
}

#[test]
fn dictionary_column_resolves() {
    let data = int32_column_data();
    // Materialize a plain int32 array first, then serve it as dictionary 7.
    let mut fns = nodes(&[(5, 1)]);
    let mut bufs = buffers(&[(0, 1), (8, 20)]);
    let values = get_array(
        &data,
        0,
        &DataType::Primitive(PrimWidth::W4),
        &leaf_field(),
        &Dictionaries::new(),
        &mut fns,
        &mut bufs,
    )
    .unwrap();
    let mut dicts = Dictionaries::new();
    dicts.insert(7, values);
    // Keys: 2 rows, no nulls, u32-wide keys at 8.
    let mut fns = nodes(&[(2, 0)]);
    let mut bufs = buffers(&[(0, 1), (8, 8)]);
    let field = IpcField { fields: Vec::new(), dictionary_id: Some(7) };
    let arr = get_array(
        &data,
        0,
        &DataType::Dictionary(PrimWidth::W4),
        &field,
        &dicts,
        &mut fns,
        &mut bufs,
    )
    .unwrap();
    assert_eq!(arr.length, 2);
    assert_eq!(arr.buffers.len(), 2);
    let dict = arr.dictionary.as_ref().expect("dictionary handle");
    assert_eq!(dict.length, 5);
    assert_eq!(dict.buffers[1], Some(BufferRange { offset: 8, length: 20 }));
}

#[test]
fn out_of_bounds_descriptor_fails() {
    let data = int32_column_data();
    let mut fns = nodes(&[(5, 1)]);
    let mut bufs = buffers(&[(0, 1), (8, 1000)]);
    let r = get_array(
        &data,
        0,
        &DataType::Primitive(PrimWidth::W4),
        &leaf_field(),
        &Dictionaries::new(),
        &mut fns,
        &mut bufs,
    );
    assert_eq!(r.unwrap_err(), Error::OutOfBounds);
}

#[test]
fn misaligned_length_fails() {
    let data = int32_column_data();
    // 10 bytes is not a multiple of 4: the reinterpretation is refused.
    let mut fns = nodes(&[(2, 0)]);
    let mut bufs = buffers(&[(0, 1), (8, 10)]);
    let r = get_array(
        &data,
        0,
        &DataType::Primitive(PrimWidth::W4),
        &leaf_field(),
        &Dictionaries::new(),
        &mut fns,
        &mut bufs,
    );
    assert_eq!(r.unwrap_err(), Error::Misaligned);
}

#[test]
fn too_small_buffer_fails() {
    let data = int32_column_data();
    // 8 bytes hold two i32 values; five rows were declared.
    let mut fns = nodes(&[(5, 0)]);
    let mut bufs = buffers(&[(0, 1), (8, 8)]);
    let r = get_array(
        &data,
        0,
        &DataType::Primitive(PrimWidth::W4),
        &leaf_field(),
        &Dictionaries::new(),
        &mut fns,
        &mut bufs,
    );
    assert_eq!(r.unwrap_err(), Error::TooSmall);
}

#[test]
fn negative_wire_values_fail() {
    let data = int32_column_data();
    let mut fns = nodes(&[(-1, 0)]);
    let mut bufs = buffers(&[(0, 1), (8, 20)]);
    let r = get_array(
        &data,
        0,
        &DataType::Primitive(PrimWidth::W4),
        &leaf_field(),
        &Dictionaries::new(),
        &mut fns,
        &mut bufs,
    );
    assert_eq!(r.unwrap_err(), Error::NegativeFooterLength);
    // A bad node count fails before any descriptor is consumed.
    assert_eq!(bufs.len(), 2);

    let mut fns = nodes(&[(5, 0)]);
    let mut bufs = buffers(&[(-4, 1), (8, 20)]);
    let r = get_array(
        &data,
        0,
        &DataType::Primitive(PrimWidth::W4),
        &leaf_field(),
        &Dictionaries::new(),
        &mut fns,
        &mut bufs,
    );
    assert_eq!(r.unwrap_err(), Error::NegativeFooterLength);
}

#[test]
fn exhausted_queues_fail() {
    let data = int32_column_data();
    let mut fns = VecDeque::new();
    let mut bufs = buffers(&[(0, 1), (8, 20)]);
    let r = get_array(
        &data,
        0,
        &DataType::Primitive(PrimWidth::W4),
        &leaf_field(),
        &Dictionaries::new(),
        &mut fns,
        &mut bufs,
    );
    assert_eq!(r.unwrap_err(), Error::ExpectedNode);
    // An exhausted node queue consumes nothing.
    assert_eq!(bufs.len(), 2);

    let mut fns = nodes(&[(5, 0)]);
    let mut bufs = buffers(&[(0, 1)]);
    let r = get_array(
        &data,
        0,
        &DataType::Primitive(PrimWidth::W4),
        &leaf_field(),
        &Dictionaries::new(),
        &mut fns,
        &mut bufs,
    );
    assert_eq!(r.unwrap_err(), Error::ExpectedBuffer);
}

#[test]
fn unsupported_type_fails() {
    let data = int32_column_data();
    let mut fns = nodes(&[(5, 0)]);
    let mut bufs = buffers(&[(0, 1), (8, 20)]);
    let r = get_array(
        &data,
        0,
        &DataType::Unsupported,
        &leaf_field(),
        &Dictionaries::new(),
        &mut fns,
        &mut bufs,
    );
    assert_eq!(r.unwrap_err(), Error::UnsupportedType);
    // The node was popped before the layout was matched; no descriptor moved.
    assert!(fns.is_empty());
    assert_eq!(bufs.len(), 2);
}

#[test]
fn null_column_owns_nothing() {
    let data = int32_column_data();
    let mut fns = nodes(&[(9, 9)]);
    let mut bufs = buffers(&[(0, 1)]);
    let arr = get_array(
        &data,
        0,
        &DataType::Null,
        &leaf_field(),
        &Dictionaries::new(),
        &mut fns,
        &mut bufs,
    )
    .unwrap();
    assert_eq!(arr.length, 9);
    assert_eq!(arr.null_count, 9);
    assert!(arr.buffers.is_empty());
    assert!(arr.children.is_empty());
    assert!(arr.dictionary.is_none());
    // A null layout consumes no descriptors.
    assert_eq!(bufs.len(), 1);
}

#[test]
fn boolean_column_counts() {
    let data = int32_column_data();
    let mut fns = nodes(&[(5, 1)]);
    let mut bufs = buffers(&[(0, 1), (1, 1)]);
    let arr = get_array(
        &data,
        0,
        &DataType::Boolean,
        &leaf_field(),
        &Dictionaries::new(),
        &mut fns,
        &mut bufs,
    )
    .unwrap();
    assert_eq!(arr.buffers.len(), 2);
    assert!(arr.children.is_empty());
}

#[test]
fn validity_slot_skipped_without_nulls() {
    let data = int32_column_data();
    // With null_count == 0 the validity descriptor is consumed but its range
    // is neither checked nor exposed.
    let mut fns = nodes(&[(5, 0)]);
    let mut bufs = buffers(&[(4000, 4000), (8, 20)]);
    let arr = get_array(
        &data,
        0,
        &DataType::Primitive(PrimWidth::W4),
        &leaf_field(),
        &Dictionaries::new(),
        &mut fns,
        &mut bufs,
    )
    .unwrap();
    assert_eq!(arr.buffers[0], None);
    let decoded = decode_i32_column(&data, &arr);
    assert_eq!(decoded, vec![Some(1), Some(2), Some(3), Some(4), Some(0)]);
}

#[test]
fn fixed_size_binary_permissive_length() {
    let data = int32_column_data();
    // The wire check demands at least rows + 1 bytes, kept as written.
    let mut fns = nodes(&[(5, 0)]);
    let mut bufs = buffers(&[(0, 1), (8, 6)]);
    let arr = get_array(
        &data,
        0,
        &DataType::FixedSizeBinary,
        &leaf_field(),
        &Dictionaries::new(),
        &mut fns,
        &mut bufs,
    )
    .unwrap();
    assert_eq!(arr.buffers.len(), 2);

    let mut fns = nodes(&[(5, 0)]);
    let mut bufs = buffers(&[(0, 1), (8, 5)]);
    let r = get_array(
        &data,
        0,
        &DataType::FixedSizeBinary,
        &leaf_field(),
        &Dictionaries::new(),
        &mut fns,
        &mut bufs,
    );
    assert_eq!(r.unwrap_err(), Error::TooSmall);
}

#[test]
fn struct_column_preorder() {
    // struct { a: i32, b: i32 } over the shared byte region.
    let mut data = vec![0u8; 8];
    for v in [1i32, 2, 3, 10, 20, 30] {
        data.extend_from_slice(&v.to_le_bytes());
    }
    let dt = DataType::Struct(vec![
        DataType::Primitive(PrimWidth::W4),
        DataType::Primitive(PrimWidth::W4),
    ]);
    let field = IpcField {
        fields: vec![leaf_field(), leaf_field()],
        dictionary_id: None,
    };
    let mut fns = nodes(&[(3, 0), (3, 0), (3, 0)]);
    let mut bufs = buffers(&[(0, 1), (0, 1), (8, 12), (0, 1), (20, 12)]);
    let arr = get_array(&data, 0, &dt, &field, &Dictionaries::new(), &mut fns, &mut bufs).unwrap();
    assert_eq!(arr.buffers.len(), 1);
    assert_eq!(arr.children.len(), 2);
    assert!(fns.is_empty());
    assert!(bufs.is_empty());
    let a = decode_i32_column(&data, &arr.children[0]);
    let b = decode_i32_column(&data, &arr.children[1]);
    assert_eq!(a, vec![Some(1), Some(2), Some(3)]);
    assert_eq!(b, vec![Some(10), Some(20), Some(30)]);
}

#[test]
fn list_column_counts() {
    // list<i32> with 2 rows: offsets [0, 1, 3], child of 3 values.
    let mut data = vec![0u8; 8];
    for o in [0i32, 1, 3] {
        data.extend_from_slice(&o.to_le_bytes());
    }
    for v in [7i32, 8, 9] {
        data.extend_from_slice(&v.to_le_bytes());
    }
    let dt = DataType::List(Box::new(DataType::Primitive(PrimWidth::W4)));
    let field = IpcField { fields: vec![leaf_field()], dictionary_id: None };
    let mut fns = nodes(&[(2, 0), (3, 0)]);
    let mut bufs = buffers(&[(0, 1), (8, 12), (0, 1), (20, 12)]);
    let arr = mmap(&data, 0, &dt, &field, &Dictionaries::new(), &mut fns, &mut bufs).unwrap();
    assert_eq!(arr.length, 2);
    assert_eq!(arr.buffers.len(), 2);
    assert_eq!(arr.children.len(), 1);
    assert_eq!(arr.children[0].length, 3);
    assert!(fns.is_empty());
    assert!(bufs.is_empty());
}

#[test]
fn failing_nested_build_exposes_nothing() {
    // The second struct child's buffer reaches past the extent: the whole
    // construction fails and every partially built child is dropped.
    let mut data = vec![0u8; 8];
    for v in [1i32, 2, 3] {
        data.extend_from_slice(&v.to_le_bytes());
    }
    let dt = DataType::Struct(vec![
        DataType::Primitive(PrimWidth::W4),
        DataType::Primitive(PrimWidth::W4),
    ]);
    let field = IpcField {
        fields: vec![leaf_field(), leaf_field()],
        dictionary_id: None,
    };
    let mut fns = nodes(&[(3, 0), (3, 0), (3, 0)]);
    let mut bufs = buffers(&[(0, 1), (0, 1), (8, 12), (0, 1), (5000, 12)]);
    let r = get_array(&data, 0, &dt, &field, &Dictionaries::new(), &mut fns, &mut bufs);
    assert_eq!(r.unwrap_err(), Error::OutOfBounds);
}

#[test]
fn round_trip_int32() {
    // Export five values with one null, re-import through the handle, and
    // compare value by value.
    let original = vec![Some(1i32), Some(2), Some(3), None, Some(0)];
    let data = int32_column_data();
    let mut fns = nodes(&[(5, 1)]);
    let mut bufs = buffers(&[(0, 1), (8, 20)]);
    let arr = mmap(
        &data,
        0,
        &DataType::Primitive(PrimWidth::W4),
        &leaf_field(),
        &Dictionaries::new(),
        &mut fns,
        &mut bufs,
    )
    .unwrap();
    assert_eq!(decode_i32_column(&data, &arr), original);
}

#[test]
fn clone_array_is_deep() {
    let data = int32_column_data();
    let mut fns = nodes(&[(5, 1)]);
    let mut bufs = buffers(&[(0, 1), (8, 20)]);
    let arr = get_array(
        &data,
        0,
        &DataType::Primitive(PrimWidth::W4),
        &leaf_field(),
        &Dictionaries::new(),
        &mut fns,
        &mut bufs,
    )
    .unwrap();
    let copy = clone_array(&arr);
    drop(arr);
    assert_eq!(copy.length, 5);
    assert_eq!(copy.buffers[1], Some(BufferRange { offset: 8, length: 20 }));
    assert_eq!(decode_i32_column(&data, &copy), vec![Some(1), Some(2), Some(3), None, Some(0)]);
}

#[test]
fn dictionaries_newest_binding_wins() {
    let data = int32_column_data();
    let mut fns = nodes(&[(5, 0)]);
    let mut bufs = buffers(&[(0, 1), (8, 20)]);
    let first = get_array(
        &data,
        0,
        &DataType::Primitive(PrimWidth::W4),
        &leaf_field(),
        &Dictionaries::new(),
        &mut fns,
        &mut bufs,
    )
    .unwrap();
    let mut fns = nodes(&[(2, 0)]);
    let mut bufs = buffers(&[(0, 1), (8, 8)]);
    let second = get_array(
        &data,
        0,
        &DataType::Primitive(PrimWidth::W4),
        &leaf_field(),
        &Dictionaries::new(),
        &mut fns,
        &mut bufs,
    )
    .unwrap();
    let mut dicts = Dictionaries::new();
    dicts.insert(7, first);
    dicts.insert(7, second);
    assert_eq!(dicts.get(7).expect("bound").length, 2);
    assert!(dicts.get(8).is_none());
}

#[test]
fn misaligned_other_widths() {
    let data = int32_column_data();
    for width in [PrimWidth::W2, PrimWidth::W8, PrimWidth::W16] {
        let mut fns = nodes(&[(1, 0)]);
        // 3 bytes is a whole multiple of no width above one.
        let mut bufs = buffers(&[(0, 1), (8, 3)]);
        let r = get_array(
            &data,
            0,
            &DataType::Primitive(width),
            &leaf_field(),
            &Dictionaries::new(),
            &mut fns,
            &mut bufs,
        );
        assert_eq!(r.unwrap_err(), Error::Misaligned);
    }
}

#[test]
fn block_offset_is_added() {
    // The same column as scenario A, shifted 16 bytes into the region, with
    // descriptors relative to the block offset.
    let mut data = vec![0u8; 16];
    data.extend_from_slice(&int32_column_data());
    let mut fns = nodes(&[(5, 1)]);
    let mut bufs = buffers(&[(0, 1), (8, 20)]);
    let arr = get_array(
        &data,
        16,
        &DataType::Primitive(PrimWidth::W4),
        &leaf_field(),
        &Dictionaries::new(),
        &mut fns,
        &mut bufs,
    )
    .unwrap();
    assert_eq!(arr.buffers[0], Some(BufferRange { offset: 16, length: 1 }));
    assert_eq!(arr.buffers[1], Some(BufferRange { offset: 24, length: 20 }));
    assert_eq!(
        decode_i32_column(&data, &arr),
        vec![Some(1), Some(2), Some(3), None, Some(0)]
    );
}

#[test]
fn error_descriptions_are_distinct() {
    let kinds = [
        Error::ExpectedBuffer,
        Error::ExpectedNode,
        Error::NegativeFooterLength,
        Error::OutOfBounds,
        Error::Misaligned,
        Error::TooSmall,
        Error::MissingDictionary,
        Error::UnsupportedType,
    ];
    for (i, a) in kinds.iter().enumerate() {
        assert!(!a.describe().is_empty());
        for b in kinds.iter().skip(i + 1) {
            assert_ne!(a.describe(), b.describe());
        }
    }
}

#[test]
fn dictionary_without_id_fails() {
    let data = int32_column_data();
    let mut fns = nodes(&[(5, 0)]);
    let mut bufs = buffers(&[(0, 1), (8, 20)]);
    let r = get_array(
        &data,
        0,
        &DataType::Dictionary(PrimWidth::W4),
        &leaf_field(),
        &Dictionaries::new(),
        &mut fns,
        &mut bufs,
    );
    assert_eq!(r.unwrap_err(), Error::MissingDictionary);
}

#[test]
fn large_utf8_column_counts() {
    // Same rows as scenario B but with 64-bit offsets.
    let mut data = vec![0u8; 8];
    data[0] = 0b011;
    for o in [0i64, 1, 3, 3] {
        data.extend_from_slice(&o.to_le_bytes());
    }
    data.extend_from_slice(b"aaa");
    let mut fns = nodes(&[(3, 1)]);
    let mut bufs = buffers(&[(0, 1), (8, 32), (40, 3)]);
    let arr = get_array(
        &data,
        0,
        &DataType::LargeUtf8,
        &leaf_field(),
        &Dictionaries::new(),
        &mut fns,
        &mut bufs,
    )
    .unwrap();
    assert_eq!(arr.length, 3);
    assert_eq!(arr.buffers.len(), 3);
    assert!(arr.children.is_empty());
    assert_eq!(arr.buffers[1], Some(BufferRange { offset: 8, length: 32 }));
    assert_eq!(arr.buffers[2], Some(BufferRange { offset: 40, length: 3 }));
}

#[test]
fn large_list_column_counts() {
    let mut data = vec![0u8; 8];
    for o in [0i64, 1, 3] {
        data.extend_from_slice(&o.to_le_bytes());
    }
    for v in [7i32, 8, 9] {
        data.extend_from_slice(&v.to_le_bytes());
    }
    let dt = DataType::LargeList(Box::new(DataType::Primitive(PrimWidth::W4)));
    let field = IpcField { fields: vec![leaf_field()], dictionary_id: None };
    let mut fns = nodes(&[(2, 0), (3, 0)]);
    let mut bufs = buffers(&[(0, 1), (8, 24), (0, 1), (32, 12)]);
    let arr = get_array(&data, 0, &dt, &field, &Dictionaries::new(), &mut fns, &mut bufs).unwrap();
    assert_eq!(arr.buffers.len(), 2);
    assert_eq!(arr.children.len(), 1);
    assert_eq!(arr.children[0].length, 3);
}

#[test]
fn fixed_size_list_column_counts() {
    // fixed_size_list<i32>: validity only, no offsets buffer.
    let mut data = vec![0u8; 8];
    for v in [1i32, 2, 3, 4] {
        data.extend_from_slice(&v.to_le_bytes());
    }
    let dt = DataType::FixedSizeList(Box::new(DataType::Primitive(PrimWidth::W4)));
    let field = IpcField { fields: vec![leaf_field()], dictionary_id: None };
    let mut fns = nodes(&[(2, 0), (4, 0)]);
    let mut bufs = buffers(&[(0, 1), (0, 1), (8, 16)]);
    let arr = get_array(&data, 0, &dt, &field, &Dictionaries::new(), &mut fns, &mut bufs).unwrap();
    assert_eq!(arr.buffers.len(), 1);
    assert_eq!(arr.children.len(), 1);
    assert_eq!(arr.children[0].length, 4);
    assert!(fns.is_empty());
    assert!(bufs.is_empty());
}

#[test]
fn width1_primitive_column() {
    // A one-byte-wide column consults no addressing verdict, so consistent
    // inputs always build.
    let mut data = vec![0u8; 8];
    data.extend_from_slice(&[9u8, 8, 7]);
    let mut fns = nodes(&[(3, 0)]);
    let mut bufs = buffers(&[(0, 1), (8, 3)]);
    let arr = get_array(
        &data,
        0,
        &DataType::Primitive(PrimWidth::W1),
        &leaf_field(),
        &Dictionaries::new(),
        &mut fns,
        &mut bufs,
    )
    .unwrap();
    assert_eq!(arr.length, 3);
    assert_eq!(arr.buffers[1], Some(BufferRange { offset: 8, length: 3 }));
    assert!(bufs.is_empty());
}
