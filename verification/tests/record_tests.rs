use sqlite_pages::error::DbError;
use sqlite_pages::record::Cell;
use sqlite_pages::serial::ColumnType;
use sqlite_pages::value::ColumnValue;
use sqlite_pages::varint::encode_varint;

/// Builds one cell: the three leading varints, the serial-type varints, and
/// the column bodies. `cols` pairs each serial-type code with its body bytes.
fn build_cell(payload_len: Option<u64>, rowid: u64, cols: &[(u64, Vec<u8>)]) -> Vec<u8> {
    let mut types: Vec<u8> = Vec::new();
    for (code, _) in cols {
        types.extend(encode_varint(*code));
    }
    let mut header_length = types.len() as u64 + 1;
    loop {
        let next = types.len() as u64 + encode_varint(header_length).len() as u64;
        if next == header_length {
            break;
        }
        header_length = next;
    }
    let body: Vec<u8> = cols.iter().flat_map(|(_, b)| b.clone()).collect();
    let mut out = encode_varint(payload_len.unwrap_or(header_length + body.len() as u64));
    out.extend(encode_varint(rowid));
    out.extend(encode_varint(header_length));
    out.extend(types);
    out.extend(body);
    out
}

#[test]
fn record_single_u8_column() {
    let bytes = build_cell(None, 7, &[(1, vec![42])]);
    let cell = Cell::new(&bytes, &0).unwrap();
    assert_eq!(cell.rowid, 7);
    assert_eq!(cell.header_length, 2);
    assert_eq!(cell.payload_len, 3);
    assert_eq!(cell.column_types, vec![ColumnType::U8]);
    assert_eq!(cell.column_values, vec![ColumnValue::U8(42)]);
    assert_eq!(cell.body_length, 1);
}

#[test]
fn record_mixed_columns() {
    let bytes = build_cell(
        None,
        1,
        &[
            (13 + 2 * 5, b"table".to_vec()),
            (0, Vec::new()),
            (1, vec![2]),
            (9, Vec::new()),
        ],
    );
    let cell = Cell::new(&bytes, &0).unwrap();
    assert_eq!(
        cell.column_types,
        vec![ColumnType::TEXT(5), ColumnType::NULL, ColumnType::U8, ColumnType::ONE]
    );
    assert_eq!(
        cell.column_values,
        vec![
            ColumnValue::TEXT(b"table".to_vec()),
            ColumnValue::NULL,
            ColumnValue::U8(2),
            ColumnValue::ONE,
        ]
    );
    assert_eq!(cell.body_length, 6);
}

#[test]
fn record_type_and_value_counts_match() {
    let bytes = build_cell(None, 3, &[(1, vec![1]), (2, vec![0, 5]), (13, Vec::new())]);
    let cell = Cell::new(&bytes, &0).unwrap();
    assert_eq!(cell.column_types.len(), cell.column_values.len());
    assert_eq!(cell.column_types.len(), 3);
}

#[test]
fn record_decode_at_nonzero_pointer() {
    let mut bytes = vec![0xee, 0xee, 0xee];
    bytes.extend(build_cell(None, 9, &[(1, vec![8])]));
    let cell = Cell::new(&bytes, &3).unwrap();
    assert_eq!(cell.rowid, 9);
    assert_eq!(cell.column_values, vec![ColumnValue::U8(8)]);
}

#[test]
fn record_header_overrun_is_mismatch() {
    // Declared header length 2, but the one serial-type varint takes 2
    // bytes, so reading it would overrun the declared header.
    let bytes = vec![0x05, 0x01, 0x02, 0x82, 0x24, 0x00];
    assert_eq!(Cell::new(&bytes, &0), Err(DbError::RecordHeaderLengthMismatch));
}

#[test]
fn record_header_shorter_than_own_varint_is_mismatch() {
    // Declared header length 0 is smaller than the 1 byte its varint takes.
    let bytes = vec![0x01, 0x01, 0x00];
    assert_eq!(Cell::new(&bytes, &0), Err(DbError::RecordHeaderLengthMismatch));
}

#[test]
fn record_invalid_serial_type_propagates() {
    // Header declares one serial-type varint with the illegal code 10.
    let bytes = vec![0x02, 0x01, 0x02, 0x0a];
    assert_eq!(Cell::new(&bytes, &0), Err(DbError::InvalidSerialType));
}

#[test]
fn record_truncated_varint_propagates() {
    let bytes = vec![0x02, 0x01];
    assert_eq!(Cell::new(&bytes, &0), Err(DbError::TruncatedVarint));
}

#[test]
fn record_body_past_end_is_corrupt_page() {
    // One U32 column declared, but only two body bytes present.
    let bytes = vec![0x06, 0x01, 0x02, 0x04, 0xaa, 0xbb];
    assert_eq!(Cell::new(&bytes, &0), Err(DbError::CorruptPage));
}

#[test]
fn record_zero_columns() {
    let bytes = build_cell(None, 5, &[]);
    let cell = Cell::new(&bytes, &0).unwrap();
    assert_eq!(cell.header_length, 1);
    assert!(cell.column_values.is_empty());
    assert_eq!(cell.body_length, 0);
}
