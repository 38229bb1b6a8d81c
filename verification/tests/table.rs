use bytes::BytesMut;
use convergence::protocol::{DataTypeOid, FormatCode};
use convergence::protocol_ext::DataRowBatch;
use convergence::table::{
    columns_fit_batch, record_batch_to_rows, schema_to_field_desc, try_record_batch_to_rows,
    Column, ColumnSchema, ColumnType, EncodedValue,
};

fn rows_of(batch: &DataRowBatch) -> Vec<u8> {
    let mut dst = BytesMut::new();
    batch.encode_rows(&mut dst);
    dst.to_vec()
}

fn float4(val: f32) -> EncodedValue {
    EncodedValue { binary: val.to_be_bytes().to_vec(), text: val.to_string() }
}

fn float8(val: f64) -> EncodedValue {
    EncodedValue { binary: val.to_be_bytes().to_vec(), text: val.to_string() }
}

#[test]
fn column_types_map_to_protocol_types_and_back() {
    let pairs = [
        (ColumnType::Int16, DataTypeOid::Int2),
        (ColumnType::Int32, DataTypeOid::Int4),
        (ColumnType::Int64, DataTypeOid::Int8),
        (ColumnType::Float32, DataTypeOid::Float4),
        (ColumnType::Float64, DataTypeOid::Float8),
        (ColumnType::Utf8, DataTypeOid::Text),
    ];
    for (column_type, data_type) in pairs.iter() {
        assert_eq!(column_type.to_data_type(), Some(*data_type));
        assert_eq!(ColumnType::from_data_type(*data_type), Some(*column_type));
    }
    assert_eq!(ColumnType::Unsupported.to_data_type(), None);
    assert_eq!(ColumnType::from_data_type(DataTypeOid::Unspecified), None);
    assert_eq!(ColumnType::from_data_type(DataTypeOid::Unknown(16)), None);
}

#[test]
fn schema_is_described_column_by_column() {
    let schema = vec![
        ColumnSchema { name: "id".to_string(), column_type: ColumnType::Int64 },
        ColumnSchema { name: "name".to_string(), column_type: ColumnType::Utf8 },
        ColumnSchema { name: "score".to_string(), column_type: ColumnType::Float64 },
    ];
    let fields = schema_to_field_desc(&schema).unwrap();
    let described: Vec<(String, DataTypeOid)> =
        fields.into_iter().map(|field| (field.name, field.data_type)).collect();
    assert_eq!(
        described,
        vec![
            ("id".to_string(), DataTypeOid::Int8),
            ("name".to_string(), DataTypeOid::Text),
            ("score".to_string(), DataTypeOid::Float8),
        ]
    );
    assert!(schema_to_field_desc(&Vec::new()).unwrap().is_empty());
}

#[test]
fn schema_with_an_unsupported_type_is_refused() {
    let schema = vec![
        ColumnSchema { name: "id".to_string(), column_type: ColumnType::Int64 },
        ColumnSchema { name: "when".to_string(), column_type: ColumnType::Unsupported },
    ];
    let error = schema_to_field_desc(&schema).unwrap_err();
    assert_eq!(error.sql_state.0, "0A000");
    assert_eq!(error.severity.0, "ERROR");
    assert_eq!(error.message, "unsupported column type");
}

#[test]
fn columns_are_written_as_rows_in_order() {
    let columns = vec![
        Column::Int32(vec![Some(1), None, Some(-3)]),
        Column::Utf8(vec![Some("a".to_string()), Some("".to_string()), None]),
    ];
    assert_eq!(columns[0].num_values(), 3);
    assert!(columns[1].is_supported());
    let mut batch = DataRowBatch::new(FormatCode::Text, vec![DataTypeOid::Int4, DataTypeOid::Text]);
    record_batch_to_rows(&columns, 3, &mut batch).unwrap();
    assert_eq!(batch.num_rows(), 3);
    let mut expected = Vec::new();
    expected.extend_from_slice(&[b'D', 0, 0, 0, 16, 0, 2, 0, 0, 0, 1, b'1', 0, 0, 0, 1, b'a']);
    expected.extend_from_slice(&[b'D', 0, 0, 0, 14, 0, 2, 0xff, 0xff, 0xff, 0xff, 0, 0, 0, 0]);
    expected.extend_from_slice(&[
        b'D', 0, 0, 0, 16, 0, 2, 0, 0, 0, 2, b'-', b'3', 0xff, 0xff, 0xff, 0xff,
    ]);
    assert_eq!(rows_of(&batch), expected);
}

#[test]
fn columns_of_every_type_in_binary() {
    let columns = vec![
        Column::Int16(vec![Some(2)]),
        Column::Int32(vec![Some(3)]),
        Column::Int64(vec![Some(4)]),
        Column::Float32(vec![Some(float4(1.5))]),
        Column::Float64(vec![Some(float8(-2.25))]),
        Column::Utf8(vec![Some("é".to_string())]),
    ];
    let types = vec![
        DataTypeOid::Int2,
        DataTypeOid::Int4,
        DataTypeOid::Int8,
        DataTypeOid::Float4,
        DataTypeOid::Float8,
        DataTypeOid::Text,
    ];
    let mut batch = DataRowBatch::new(FormatCode::Binary, types);
    record_batch_to_rows(&columns, 1, &mut batch).unwrap();
    let expected = vec![
        b'D', 0, 0, 0, 58, 0, 6, // tag, length, six columns
        0, 0, 0, 2, 0, 2, // int2
        0, 0, 0, 4, 0, 0, 0, 3, // int4
        0, 0, 0, 8, 0, 0, 0, 0, 0, 0, 0, 4, // int8
        0, 0, 0, 4, 0x3f, 0xc0, 0, 0, // float4
        0, 0, 0, 8, 0xc0, 0x02, 0, 0, 0, 0, 0, 0, // float8
        0, 0, 0, 2, 0xc3, 0xa9, // text
    ];
    assert_eq!(rows_of(&batch), expected);
}

#[test]
fn floats_in_text_format_are_written_as_the_engine_gave_them() {
    let columns = vec![
        Column::Float32(vec![Some(float4(1.5)), None]),
        Column::Float64(vec![Some(float8(0.1)), Some(float8(-2.0))]),
    ];
    let mut batch =
        DataRowBatch::new(FormatCode::Text, vec![DataTypeOid::Float4, DataTypeOid::Float8]);
    record_batch_to_rows(&columns, 2, &mut batch).unwrap();
    let mut expected = Vec::new();
    expected.extend_from_slice(&[b'D', 0, 0, 0, 20, 0, 2, 0, 0, 0, 3]);
    expected.extend_from_slice(b"1.5");
    expected.extend_from_slice(&[0, 0, 0, 3]);
    expected.extend_from_slice(b"0.1");
    expected.extend_from_slice(&[b'D', 0, 0, 0, 16, 0, 2, 0xff, 0xff, 0xff, 0xff, 0, 0, 0, 2]);
    expected.extend_from_slice(b"-2");
    assert_eq!(rows_of(&batch), expected);
}

#[test]
fn rows_are_added_after_those_already_there() {
    let mut batch = DataRowBatch::new(FormatCode::Text, vec![DataTypeOid::Int8]);
    record_batch_to_rows(&vec![Column::Int64(vec![Some(1), Some(2)])], 2, &mut batch).unwrap();
    record_batch_to_rows(&vec![Column::Int64(vec![Some(3)])], 1, &mut batch).unwrap();
    record_batch_to_rows(&vec![Column::Int64(Vec::new())], 0, &mut batch).unwrap();
    assert_eq!(batch.num_rows(), 3);
    let bytes = rows_of(&batch);
    assert_eq!(bytes.len(), 36);
    assert_eq!(bytes[11], b'1');
    assert_eq!(bytes[23], b'2');
    assert_eq!(bytes[35], b'3');
}

#[test]
fn unsupported_column_is_refused_and_nothing_is_written() {
    let columns = vec![Column::Int32(vec![Some(1)]), Column::Unsupported];
    assert!(!columns[1].is_supported());
    let mut batch =
        DataRowBatch::new(FormatCode::Text, vec![DataTypeOid::Int4, DataTypeOid::Unknown(1114)]);
    let error = record_batch_to_rows(&columns, 1, &mut batch).unwrap_err();
    assert_eq!(error.sql_state.0, "0A000");
    assert_eq!(error.message, "unsupported column type");
    assert_eq!(batch.num_rows(), 0);
    assert_eq!(batch.num_written(), 0);
    assert_eq!(rows_of(&batch), Vec::<u8>::new());
}

#[test]
fn columns_fit_a_batch_of_their_shape_and_types() {
    let batch = DataRowBatch::new(FormatCode::Binary, vec![DataTypeOid::Int4, DataTypeOid::Text]);
    let good = vec![
        Column::Int32(vec![Some(1), None]),
        Column::Utf8(vec![None, Some("x".to_string())]),
    ];
    assert!(columns_fit_batch(&good, 2, &batch));
    assert!(!columns_fit_batch(&good, 3, &batch));
    assert!(!columns_fit_batch(&good, 1, &batch));
    let too_few = vec![Column::Int32(vec![Some(1), None])];
    assert!(!columns_fit_batch(&too_few, 2, &batch));
    let uneven = vec![Column::Int32(vec![Some(1)]), Column::Utf8(vec![None, None])];
    assert!(!columns_fit_batch(&uneven, 2, &batch));
    let wrong_size = vec![Column::Int64(vec![Some(1)]), Column::Utf8(vec![None])];
    assert!(!columns_fit_batch(&wrong_size, 1, &batch));
    let nulls = vec![Column::Int64(vec![None]), Column::Utf8(vec![None])];
    assert!(columns_fit_batch(&nulls, 1, &batch));
    let text_batch = DataRowBatch::new(FormatCode::Text, vec![DataTypeOid::Int4, DataTypeOid::Text]);
    assert!(columns_fit_batch(&wrong_size, 1, &text_batch));
    assert_eq!(good[0].value_len(0, FormatCode::Binary), Some(4));
    assert_eq!(good[0].value_len(1, FormatCode::Binary), None);
    assert_eq!(Column::Int64(vec![Some(-120)]).value_len(0, FormatCode::Text), Some(4));
    assert_eq!(Column::Int16(vec![Some(7)]).value_len(0, FormatCode::Binary), Some(2));
    assert_eq!(Column::Float64(vec![Some(float8(0.5))]).value_len(0, FormatCode::Text), Some(3));
    assert_eq!(Column::Float64(vec![Some(float8(0.5))]).value_len(0, FormatCode::Binary), Some(8));
    assert_eq!(
        Column::Utf8(vec![Some("é".to_string())]).value_len(0, FormatCode::Binary),
        Some(2)
    );
}

#[test]
fn checked_conversion_writes_only_what_fits() {
    let mut batch = DataRowBatch::new(FormatCode::Binary, vec![DataTypeOid::Int4]);
    let wrong = vec![Column::Int64(vec![Some(1)])];
    assert!(try_record_batch_to_rows(&wrong, 1, &mut batch).is_none());
    assert_eq!(batch.num_rows(), 0);
    let right = vec![Column::Int32(vec![Some(1), Some(2)])];
    assert!(matches!(try_record_batch_to_rows(&right, 2, &mut batch), Some(Ok(()))));
    assert_eq!(batch.num_rows(), 2);
    assert_eq!(batch.type_at(0), DataTypeOid::Int4);
    let unsupported = vec![Column::Unsupported];
    match try_record_batch_to_rows(&unsupported, 0, &mut batch) {
        Some(Err(error)) => assert_eq!(error.sql_state.0, "0A000"),
        _ => panic!("an unsupported column was accepted"),
    }
    batch.write_int4(3);
    assert!(try_record_batch_to_rows(&right, 2, &mut batch).is_none());
    assert_eq!(batch.num_rows(), 2);
    assert_eq!(batch.num_written(), 1);
}
