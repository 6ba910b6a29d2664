use sqlite_pages::error::DbError;
use sqlite_pages::varint::{decode_varint, encode_varint};

fn round_trip(v: u64, expected_len: usize) {
    let enc = encode_varint(v);
    assert_eq!(enc.len(), expected_len);
    let (got, n) = decode_varint(&enc, 0).unwrap();
    assert_eq!(got, v);
    assert_eq!(n, enc.len());
}

#[test]
fn varint_round_trip_one_byte() {
    round_trip(0, 1);
    round_trip(1, 1);
    round_trip(127, 1);
}

#[test]
fn varint_round_trip_multi_byte() {
    round_trip(128, 2);
    round_trip(300, 2);
    round_trip(16383, 2);
    round_trip(16384, 3);
    round_trip(0xFFFF_FFFF, 5);
}

#[test]
fn varint_round_trip_terminal_nine_bytes() {
    round_trip((1u64 << 56) - 1, 8);
    round_trip(1u64 << 56, 9);
    round_trip(u64::MAX, 9);
}

#[test]
fn varint_known_encoding() {
    assert_eq!(encode_varint(300), vec![0x82, 0x2c]);
    assert_eq!(encode_varint(0x7f), vec![0x7f]);
    let nine = encode_varint(u64::MAX);
    assert_eq!(nine, vec![0xff, 0xff, 0xff, 0xff, 0xff, 0xff, 0xff, 0xff, 0xff]);
}

#[test]
fn varint_decode_stops_at_clear_high_bit() {
    let bytes = vec![0x82, 0x2c, 0x99, 0x99];
    let (v, n) = decode_varint(&bytes, 0).unwrap();
    assert_eq!(v, 300);
    assert_eq!(n, 2);
}

#[test]
fn varint_truncated_fails() {
    let empty: Vec<u8> = Vec::new();
    assert_eq!(decode_varint(&empty, 0), Err(DbError::TruncatedVarint));
    let cut = vec![0x80];
    assert_eq!(decode_varint(&cut, 0), Err(DbError::TruncatedVarint));
    let cut8 = vec![0xff; 8];
    assert_eq!(decode_varint(&cut8, 0), Err(DbError::TruncatedVarint));
}
