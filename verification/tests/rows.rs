use bytes::BytesMut;
use convergence::protocol::{DataTypeOid, FieldDescription, FormatCode, RowDescription};
use convergence::protocol_ext::DataRowBatch;

fn rows_of(batch: &DataRowBatch) -> Vec<u8> {
    let mut dst = BytesMut::new();
    batch.encode_rows(&mut dst);
    dst.to_vec()
}

fn description(types: &[DataTypeOid], format_code: FormatCode) -> RowDescription {
    RowDescription {
        fields: types
            .iter()
            .enumerate()
            .map(|(i, data_type)| FieldDescription { name: format!("c{}", i), data_type: *data_type })
            .collect(),
        format_code,
    }
}

#[test]
fn text_row_of_one_integer() {
    let mut batch = DataRowBatch::from_row_desc(&description(&[DataTypeOid::Int4], FormatCode::Text));
    assert_eq!(batch.num_cols(), 1);
    assert_eq!(batch.num_rows(), 0);
    assert!(batch.can_write(1));
    batch.write_int4(1);
    batch.end_row();
    assert_eq!(batch.num_rows(), 1);
    assert_eq!(rows_of(&batch), vec![b'D', 0, 0, 0, 11, 0, 1, 0, 0, 0, 1, b'1']);
}

#[test]
fn empty_batch_has_no_bytes() {
    let batch = DataRowBatch::new(FormatCode::Text, vec![DataTypeOid::Int4]);
    assert_eq!(rows_of(&batch), Vec::<u8>::new());
    assert_eq!(batch.format_code(), FormatCode::Text);
}

#[test]
fn text_rows_hold_decimal_integers_and_strings() {
    let types = [DataTypeOid::Int2, DataTypeOid::Int4, DataTypeOid::Int8, DataTypeOid::Text];
    let mut batch = DataRowBatch::from_row_desc(&description(&types, FormatCode::Text));
    batch.write_int2(-7);
    batch.write_int4(1200);
    batch.write_int8(i64::MIN);
    batch.write_string("héllo");
    batch.end_row();
    let mut expected = vec![b'D', 0, 0, 0, 0, 0, 4];
    expected.extend_from_slice(&[0, 0, 0, 2]);
    expected.extend_from_slice(b"-7");
    expected.extend_from_slice(&[0, 0, 0, 4]);
    expected.extend_from_slice(b"1200");
    expected.extend_from_slice(&[0, 0, 0, 20]);
    expected.extend_from_slice(b"-9223372036854775808");
    expected.extend_from_slice(&[0, 0, 0, 6]);
    expected.extend_from_slice("héllo".as_bytes());
    let length = (expected.len() - 1) as u8;
    expected[4] = length;
    assert_eq!(rows_of(&batch), expected);
}

#[test]
fn binary_rows_hold_big_endian_integers() {
    let types = [DataTypeOid::Int2, DataTypeOid::Int4, DataTypeOid::Int8];
    let mut batch = DataRowBatch::from_row_desc(&description(&types, FormatCode::Binary));
    batch.write_int2(0x0102);
    batch.write_int4(-2);
    batch.write_int8(0x0102030405060708);
    batch.end_row();
    let expected = vec![
        b'D', 0, 0, 0, 32, 0, 3, // tag, length, three columns
        0, 0, 0, 2, 1, 2, // int2
        0, 0, 0, 4, 0xff, 0xff, 0xff, 0xfe, // int4
        0, 0, 0, 8, 1, 2, 3, 4, 5, 6, 7, 8, // int8
    ];
    assert_eq!(rows_of(&batch), expected);
}

#[test]
fn binary_values_have_the_size_of_their_type() {
    let types = [DataTypeOid::Int2, DataTypeOid::Int4, DataTypeOid::Int8, DataTypeOid::Float4,
        DataTypeOid::Float8];
    let sizes = [2usize, 4, 8, 4, 8];
    let mut batch = DataRowBatch::from_row_desc(&description(&types, FormatCode::Binary));
    for (i, size) in sizes.iter().enumerate() {
        assert_eq!(batch.next_type(), Some(types[i]));
        for len in 0..10usize {
            assert_eq!(batch.can_write(len), len == *size, "column {} length {}", i, len);
        }
        batch.write_value(&vec![0xab; *size]);
    }
    assert_eq!(batch.next_type(), None);
    assert!(!batch.can_write(0));
    batch.end_row();
    let bytes = rows_of(&batch);
    assert_eq!(&bytes[5..7], &[0, 5]);
    let mut at = 7;
    for size in sizes.iter() {
        assert_eq!(&bytes[at..at + 4], &(*size as i32).to_be_bytes());
        at += 4 + size;
    }
    assert_eq!(at, bytes.len());
}

#[test]
fn binary_floats_are_written_as_their_bytes() {
    let types = [DataTypeOid::Float4, DataTypeOid::Float8];
    let mut batch = DataRowBatch::from_row_desc(&description(&types, FormatCode::Binary));
    batch.write_value(&1.5f32.to_be_bytes());
    batch.write_value(&(-2.25f64).to_be_bytes());
    batch.end_row();
    let expected = vec![
        b'D', 0, 0, 0, 26, 0, 2, 0, 0, 0, 4, 0x3f, 0xc0, 0, 0, 0, 0, 0, 8, 0xc0, 0x02, 0, 0, 0, 0,
        0, 0,
    ];
    assert_eq!(rows_of(&batch), expected);
}

#[test]
fn text_and_unknown_columns_take_any_length_in_binary() {
    let types = [DataTypeOid::Text, DataTypeOid::Unknown(1043)];
    let mut batch = DataRowBatch::from_row_desc(&description(&types, FormatCode::Binary));
    assert!(batch.can_write(0));
    assert!(batch.can_write(1000));
    batch.write_string("abc");
    assert!(batch.can_write(17));
    batch.write_value(b"0123456789");
    batch.end_row();
    assert_eq!(batch.num_rows(), 1);
}

#[test]
fn text_format_takes_any_length() {
    let mut batch = DataRowBatch::from_row_desc(&description(&[DataTypeOid::Int4], FormatCode::Text));
    assert!(batch.can_write(0));
    assert!(batch.can_write(11));
    assert!(!batch.can_write(i32::MAX as usize));
    batch.write_string("-2147483648");
    batch.end_row();
    assert_eq!(rows_of(&batch)[7..11], [0, 0, 0, 11]);
}

#[test]
fn null_is_written_as_minus_one() {
    let types = [DataTypeOid::Int4, DataTypeOid::Text];
    let mut batch = DataRowBatch::from_row_desc(&description(&types, FormatCode::Binary));
    batch.write_null();
    assert_eq!(batch.num_written(), 1);
    assert_eq!(batch.row_size(), 4);
    batch.write_null();
    batch.end_row();
    assert_eq!(
        rows_of(&batch),
        vec![b'D', 0, 0, 0, 14, 0, 2, 0xff, 0xff, 0xff, 0xff, 0xff, 0xff, 0xff, 0xff]
    );
}

#[test]
fn every_row_has_the_width_of_the_description() {
    let types = [DataTypeOid::Int4, DataTypeOid::Text, DataTypeOid::Int8];
    let mut batch = DataRowBatch::from_row_desc(&description(&types, FormatCode::Text));
    for row in 0..5i32 {
        batch.write_int4(row);
        assert_eq!(batch.num_written(), 1);
        batch.write_string("x");
        batch.write_null();
        assert_eq!(batch.num_written(), 3);
        batch.end_row();
        assert_eq!(batch.num_written(), 0);
        assert_eq!(batch.row_size(), 0);
    }
    assert_eq!(batch.num_rows(), 5);
    let bytes = rows_of(&batch);
    let mut at = 0;
    let mut rows = 0;
    while at < bytes.len() {
        assert_eq!(bytes[at], b'D');
        let length =
            i32::from_be_bytes([bytes[at + 1], bytes[at + 2], bytes[at + 3], bytes[at + 4]]);
        assert_eq!(&bytes[at + 5..at + 7], &[0, 3]);
        at += 1 + length as usize;
        rows += 1;
    }
    assert_eq!(at, bytes.len());
    assert_eq!(rows, 5);
}

#[test]
fn open_row_is_not_sent() {
    let types = [DataTypeOid::Int4, DataTypeOid::Int4];
    let mut batch = DataRowBatch::from_row_desc(&description(&types, FormatCode::Text));
    batch.write_int4(1);
    batch.write_int4(2);
    batch.end_row();
    batch.write_int4(3);
    assert_eq!(batch.num_rows(), 1);
    assert_eq!(
        rows_of(&batch),
        vec![b'D', 0, 0, 0, 16, 0, 2, 0, 0, 0, 1, b'1', 0, 0, 0, 1, b'2']
    );
}

#[test]
fn row_without_columns() {
    let mut batch = DataRowBatch::new(FormatCode::Text, Vec::new());
    assert!(!batch.can_write(0));
    batch.end_row();
    batch.end_row();
    assert_eq!(rows_of(&batch), vec![b'D', 0, 0, 0, 6, 0, 0, b'D', 0, 0, 0, 6, 0, 0]);
}

#[test]
fn rows_are_appended_to_what_is_there() {
    let mut batch = DataRowBatch::new(FormatCode::Text, vec![DataTypeOid::Text]);
    batch.write_string("");
    batch.end_row();
    let mut dst = BytesMut::from(&b"Z"[..]);
    batch.encode_rows(&mut dst);
    assert_eq!(&dst[..], &[b'Z', b'D', 0, 0, 0, 10, 0, 1, 0, 0, 0, 0][..]);
}

#[test]
fn checked_writes_say_whether_they_wrote() {
    let types = [DataTypeOid::Int4, DataTypeOid::Text];
    let mut batch = DataRowBatch::from_row_desc(&description(&types, FormatCode::Binary));
    assert!(!batch.try_end_row());
    assert!(!batch.try_write_value(b"12345"));
    assert_eq!(batch.num_written(), 0);
    assert!(batch.try_write_value(&[0, 0, 0, 9]));
    assert!(batch.can_write_null());
    assert!(batch.try_write_null());
    assert!(!batch.can_write_null());
    assert!(!batch.try_write_null());
    assert!(!batch.try_write_value(b""));
    assert_eq!(batch.num_written(), 2);
    assert!(batch.try_end_row());
    assert_eq!(batch.num_rows(), 1);
    assert_eq!(
        rows_of(&batch),
        vec![b'D', 0, 0, 0, 18, 0, 2, 0, 0, 0, 4, 0, 0, 0, 9, 0xff, 0xff, 0xff, 0xff]
    );
}
