use convergence::protocol::{DataTypeOid, FormatCode, ProtocolError};
use convergence::text::{append_decimal, decimal_string};
use convergence::wire::{read_i16, read_i32, read_u32, read_u8};

#[test]
fn supported_types_have_their_oids() {
    let table = [
        (DataTypeOid::Unspecified, 0u32, 0i16),
        (DataTypeOid::Int2, 21, 2),
        (DataTypeOid::Int4, 23, 4),
        (DataTypeOid::Int8, 20, 8),
        (DataTypeOid::Float4, 700, 4),
        (DataTypeOid::Float8, 701, 8),
        (DataTypeOid::Text, 25, -1),
    ];
    for (data_type, oid, size) in table.iter() {
        assert_eq!(u32::from(*data_type), *oid);
        assert_eq!(data_type.to_oid(), *oid);
        assert_eq!(DataTypeOid::from(*oid), *data_type);
        assert_eq!(data_type.size_bytes(), *size);
        assert!(data_type.is_supported());
    }
}

#[test]
fn other_oids_are_carried_through() {
    assert_eq!(DataTypeOid::from(1043u32), DataTypeOid::Unknown(1043));
    assert_eq!(u32::from(DataTypeOid::Unknown(1043)), 1043);
    assert!(!DataTypeOid::Unknown(1043).is_supported());
    let oid: u32 = DataTypeOid::Unknown(u32::MAX).into();
    assert_eq!(oid, u32::MAX);
}

#[test]
fn every_oid_comes_back_from_its_type() {
    for oid in (0u32..1000).chain([u32::MAX, 1 << 31].iter().copied()) {
        assert_eq!(u32::from(DataTypeOid::from(oid)), oid);
    }
}

#[test]
fn unknown_with_a_supported_oid_is_read_as_that_type() {
    assert_eq!(DataTypeOid::from(u32::from(DataTypeOid::Unknown(23))), DataTypeOid::Int4);
}

#[test]
fn format_codes_have_their_numbers() {
    assert_eq!(FormatCode::Text.code(), 0);
    assert_eq!(FormatCode::Binary.code(), 1);
    assert!(matches!(FormatCode::try_from(0i16), Ok(FormatCode::Text)));
    assert!(matches!(FormatCode::try_from(1i16), Ok(FormatCode::Binary)));
}

#[test]
fn other_numbers_are_no_format_codes() {
    assert!(matches!(FormatCode::try_from(2i16), Err(ProtocolError::InvalidFormatCode(2))));
    assert!(matches!(FormatCode::try_from(-1i16), Err(ProtocolError::InvalidFormatCode(-1))));
    assert!(matches!(
        FormatCode::try_from(i16::MIN),
        Err(ProtocolError::InvalidFormatCode(i16::MIN))
    ));
}

#[test]
fn integers_are_written_in_decimal() {
    assert_eq!(decimal_string(0), "0");
    assert_eq!(decimal_string(7), "7");
    assert_eq!(decimal_string(10), "10");
    assert_eq!(decimal_string(1203), "1203");
    assert_eq!(decimal_string(-1), "-1");
    assert_eq!(decimal_string(-90), "-90");
    assert_eq!(decimal_string(i64::MAX), "9223372036854775807");
    assert_eq!(decimal_string(i64::MIN), "-9223372036854775808");
}

#[test]
fn decimal_digits_are_appended() {
    let mut text = String::from("n=");
    append_decimal(&mut text, 0);
    append_decimal(&mut text, 42);
    append_decimal(&mut text, u64::MAX);
    assert_eq!(text, "n=04218446744073709551615");
}

#[test]
fn integers_are_read_big_endian() {
    let bytes = [0x01u8, 0x02, 0x03, 0x04, 0xff, 0xfe, 0x80, 0x00, 0x00, 0x00];
    assert_eq!(read_u8(&bytes, 4), 0xff);
    assert_eq!(read_i16(&bytes, 0), 0x0102);
    assert_eq!(read_i16(&bytes, 4), -2);
    assert_eq!(read_i16(&bytes, 6), i16::MIN);
    assert_eq!(read_i32(&bytes, 0), 0x01020304);
    assert_eq!(read_i32(&bytes, 2), 0x0304fffe);
    assert_eq!(read_i32(&bytes, 4), -98304);
    assert_eq!(read_i32(&bytes, 6), i32::MIN);
    assert_eq!(read_u32(&bytes, 4), 0xfffe8000);
    assert_eq!(read_i32(&[0xff, 0xff, 0xff, 0xff], 0), -1);
    assert_eq!(read_i32(&[0x7f, 0xff, 0xff, 0xff], 0), i32::MAX);
}
