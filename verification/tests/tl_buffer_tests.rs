use catte::tl_buffer::{TlBuffer, TlBufferError};

fn short_text(e: TlBufferError) -> String {
    match e {
        TlBufferError::NotEnoughData(s) => s,
        other => panic!("unexpected error {:?}", other),
    }
}

#[test]
fn int_written_little_endian_reads_back() {
    let mut b = TlBuffer::new(vec![]);
    b.write_int(-2);
    assert_eq!(b.data(), &[0xfe, 0xff, 0xff, 0xff]);
    assert_eq!(b.position(), 4);
    b.seek(0);
    assert_eq!(b.read_int().unwrap(), -2);
    assert_eq!(b.position(), 4);
}

#[test]
fn long_and_int128_round_trip() {
    let mut b = TlBuffer::new(vec![]);
    b.write_long(i64::MIN);
    b.write_int128(-123456789012345678901234567890i128);
    b.write_byte(-7);
    assert_eq!(b.len(), 25);
    b.seek(0);
    assert_eq!(b.read_long().unwrap(), i64::MIN);
    assert_eq!(b.read_int128().unwrap(), -123456789012345678901234567890i128);
    assert_eq!(b.read_byte().unwrap(), -7);
}

#[test]
fn short_read_reports_primitive_and_keeps_cursor() {
    let mut b = TlBuffer::new(vec![1, 2]);
    let e = b.read_int().unwrap_err();
    assert_eq!(short_text(e.clone()), "$t");
    assert_eq!(e.message(), "not enough data when reading $t");
    assert_eq!(b.position(), 0);
}

#[test]
fn write_inside_data_overwrites() {
    let mut b = TlBuffer::new(vec![0; 8]);
    b.seek(2);
    b.write_int(1);
    assert_eq!(b.data(), &[0, 0, 1, 0, 0, 0, 0, 0]);
    assert_eq!(b.position(), 6);
}

#[test]
fn write_past_end_grows_by_the_value_size() {
    let mut b = TlBuffer::new(vec![0; 2]);
    b.seek(1);
    b.write_int(0x04030201);
    assert_eq!(b.data(), &[0, 1, 2, 3, 4, 0]);
    assert_eq!(b.position(), 5);
}

#[test]
fn short_bytes_are_padded_to_four() {
    let mut b = TlBuffer::new(vec![]);
    b.write_bytes(b"abc");
    assert_eq!(b.data(), &[3, b'a', b'b', b'c']);
    b.write_bytes(b"hello");
    assert_eq!(b.len(), 12);
    assert_eq!(&b.data()[4..12], &[5, b'h', b'e', b'l', b'l', b'o', 0, 0]);
    b.seek(0);
    assert_eq!(b.read_bytes().unwrap(), b"abc".to_vec());
    assert_eq!(b.read_bytes().unwrap(), b"hello".to_vec());
    assert_eq!(b.position(), 12);
}

#[test]
fn long_bytes_use_three_byte_length() {
    let value = vec![7u8; 254];
    let mut b = TlBuffer::new(vec![]);
    b.write_bytes(&value);
    assert_eq!(&b.data()[..4], &[0xfe, 254, 0, 0]);
    assert_eq!(b.len(), 4 + 254 + 2);
    b.seek(0);
    assert_eq!(b.read_bytes().unwrap(), value);
    assert_eq!(b.position(), 260);
}

#[test]
fn truncated_bytes_report_bytes() {
    let mut b = TlBuffer::new(vec![5, 1, 2]);
    assert_eq!(short_text(b.read_bytes().unwrap_err()), "bytes");
    let mut b = TlBuffer::new(vec![0xfe, 1]);
    assert_eq!(short_text(b.read_bytes().unwrap_err()), "int24");
}

#[test]
fn strings_round_trip_and_reject_bad_utf8() {
    let mut b = TlBuffer::new(vec![]);
    b.write_string(&"héllo".to_string());
    b.seek(0);
    assert_eq!(b.read_string().unwrap(), "héllo");
    let mut bad = TlBuffer::new(vec![2, 0xff, 0xfe, 0]);
    assert!(matches!(bad.read_string(), Err(TlBufferError::BadData)));
}

#[test]
fn booleans_use_their_constructor_numbers() {
    let mut b = TlBuffer::new(vec![]);
    b.write_bool(true);
    b.write_bool(false);
    assert_eq!(b.data(), &[0xb5, 0x75, 0x72, 0x99, 0x37, 0x97, 0x79, 0xbc]);
    b.seek(0);
    assert_eq!(b.read_bool().unwrap(), true);
    assert_eq!(b.read_bool().unwrap(), false);
    let mut alt = TlBuffer::new(1072550713i32.to_le_bytes().to_vec());
    assert_eq!(alt.read_bool().unwrap(), true);
    let mut other = TlBuffer::new(vec![1, 0, 0, 0]);
    assert!(matches!(other.read_bool(), Err(TlBufferError::BadData)));
}

#[test]
fn int24_round_trip() {
    let mut b = TlBuffer::new(vec![]);
    b.write_int24(0x123456);
    assert_eq!(b.data(), &[0x56, 0x34, 0x12]);
    b.seek(0);
    assert_eq!(b.read_int24().unwrap(), 0x123456);
    let mut short = TlBuffer::new(vec![1, 2]);
    assert_eq!(short_text(short.read_int24().unwrap_err()), "int24");
}

#[test]
fn raw_reads_exact_lengths() {
    let mut b = TlBuffer::new(vec![]);
    b.write_raw(&[9, 8, 7]);
    b.seek(1);
    assert_eq!(b.read_raw(2).unwrap(), vec![8, 7]);
    assert_eq!(short_text(b.read_raw(1).unwrap_err()), "raw");
}

#[test]
fn error_messages() {
    assert_eq!(TlBufferError::BadData.message(), "bad data");
    assert_eq!(TlBufferError::Custom("no reader for 5".to_string()).message(), "no reader for 5");
}

#[test]
fn raw_writes_land_at_the_cursor() {
    let mut inside = TlBuffer::new(vec![1, 2, 3, 4, 5, 6]);
    inside.seek(1);
    inside.write_raw(&[9, 9]);
    assert_eq!(inside.data(), &[1, 9, 9, 4, 5, 6]);
    assert_eq!(inside.position(), 3);
    let mut past = TlBuffer::new(vec![1, 2, 3, 4]);
    past.seek(3);
    past.write_raw(&[7, 7, 7]);
    assert_eq!(past.data(), &[1, 2, 3, 7, 7, 7, 0]);
    assert_eq!(past.position(), 6);
}
