use sqlite_pages::error::DbError;
use sqlite_pages::serial::ColumnType;
use sqlite_pages::value::ColumnValue;

#[test]
fn value_u8() {
    let bytes = vec![0xab];
    let v = ColumnValue::new(&bytes, &ColumnType::U8, 0).unwrap();
    assert_eq!(v, ColumnValue::U8(0xab));
}

#[test]
fn value_u16_big_endian() {
    let bytes = vec![0x12, 0x34];
    let v = ColumnValue::new(&bytes, &ColumnType::U16, 0).unwrap();
    assert_eq!(v, ColumnValue::U16(0x1234));
}

#[test]
fn value_u24_zero_extended() {
    let bytes = vec![0xaa, 0xbb, 0xcc];
    let v = ColumnValue::new(&bytes, &ColumnType::U24, 0).unwrap();
    assert_eq!(v, ColumnValue::U24(0x00aa_bbcc));
}

#[test]
fn value_u32_big_endian() {
    let bytes = vec![0x01, 0x02, 0x03, 0x04];
    let v = ColumnValue::new(&bytes, &ColumnType::U32, 0).unwrap();
    assert_eq!(v, ColumnValue::U32(0x0102_0304));
}

#[test]
fn value_u48_zero_extended() {
    let bytes = vec![0x01, 0x02, 0x03, 0x04, 0x05, 0x06];
    let v = ColumnValue::new(&bytes, &ColumnType::U48, 0).unwrap();
    assert_eq!(v, ColumnValue::U48(0x0000_0102_0304_0506));
}

#[test]
fn value_u64_big_endian() {
    let bytes = vec![0x11, 0x22, 0x33, 0x44, 0x55, 0x66, 0x77, 0x88];
    let v = ColumnValue::new(&bytes, &ColumnType::U64, 0).unwrap();
    assert_eq!(v, ColumnValue::U64(0x1122_3344_5566_7788));
}

#[test]
fn value_f64_carries_raw_bits() {
    let one_half: f64 = 0.5;
    let bytes = one_half.to_be_bytes().to_vec();
    let v = ColumnValue::new(&bytes, &ColumnType::F64, 0).unwrap();
    assert_eq!(v, ColumnValue::F64(one_half.to_bits()));
}

#[test]
fn value_zero_length_classes() {
    let bytes: Vec<u8> = Vec::new();
    assert_eq!(ColumnValue::new(&bytes, &ColumnType::NULL, 0).unwrap(), ColumnValue::NULL);
    assert_eq!(ColumnValue::new(&bytes, &ColumnType::ZERO, 0).unwrap(), ColumnValue::ZERO);
    assert_eq!(ColumnValue::new(&bytes, &ColumnType::ONE, 0).unwrap(), ColumnValue::ONE);
}

#[test]
fn value_text_and_blob() {
    let bytes = b"hi!".to_vec();
    let t = ColumnValue::new(&bytes, &ColumnType::TEXT(3), 0).unwrap();
    assert_eq!(t, ColumnValue::TEXT(b"hi!".to_vec()));
    let b = ColumnValue::new(&bytes, &ColumnType::BLOB(2), 1).unwrap();
    assert_eq!(b, ColumnValue::BLOB(b"i!".to_vec()));
}

#[test]
fn value_text_rejects_bad_utf8() {
    let bytes = vec![0xff, 0xfe];
    assert_eq!(ColumnValue::new(&bytes, &ColumnType::TEXT(2), 0), Err(DbError::InvalidUtf8));
    let stray_continuation = vec![0x80];
    assert_eq!(
        ColumnValue::new(&stray_continuation, &ColumnType::TEXT(1), 0),
        Err(DbError::InvalidUtf8)
    );
    let overlong = vec![0xc0, 0x80];
    assert_eq!(ColumnValue::new(&overlong, &ColumnType::TEXT(2), 0), Err(DbError::InvalidUtf8));
}

#[test]
fn value_text_accepts_multibyte_utf8() {
    let snowman = "\u{2603}".as_bytes().to_vec();
    let v = ColumnValue::new(&snowman, &ColumnType::TEXT(3), 0).unwrap();
    assert_eq!(v, ColumnValue::TEXT(snowman.clone()));
}

#[test]
fn value_out_of_bounds_is_corrupt_page() {
    let bytes = vec![0x01];
    assert_eq!(ColumnValue::new(&bytes, &ColumnType::U16, 0), Err(DbError::CorruptPage));
    assert_eq!(ColumnValue::new(&bytes, &ColumnType::U8, 1), Err(DbError::CorruptPage));
}
