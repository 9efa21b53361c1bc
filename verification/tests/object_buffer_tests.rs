use catte::bytes_buffer::BytesBuffer;
use catte::mtproto::{read_req_pq_multi, ReqPqMulti};
use catte::tl_error::TlError;
use catte::tl_object::TlObject;
use catte::tl_reader::{TlReader, TlReaderFunction, TlValue};

#[test]
fn fixed_width_values_round_trip() {
    let mut b = BytesBuffer::new(vec![]);
    b.write_int(0x01020304);
    b.write_long(-1);
    b.write_int128(170141183460469231731687303715884105727);
    b.write_byte(-128);
    assert_eq!(&b.data()[..4], &[4, 3, 2, 1]);
    b.seek(0);
    assert_eq!(b.read_int().unwrap(), 0x01020304);
    assert_eq!(b.read_long().unwrap(), -1);
    assert_eq!(b.read_int128().unwrap(), i128::MAX);
    assert_eq!(b.read_byte().unwrap(), -128);
    assert!(matches!(b.read_byte(), Err(TlError::NotEnoughData)));
}

#[test]
fn u128_reads_unsigned() {
    let mut b = BytesBuffer::new(vec![0xff; 16]);
    assert_eq!(b.read_u128().unwrap(), u128::MAX);
    assert_eq!(b.position(), 16);
}

#[test]
fn int24_sign_extends_each_byte() {
    let mut b = BytesBuffer::new(vec![0x01, 0x02, 0x03]);
    assert_eq!(b.read_int24().unwrap(), 0x030201);
    let mut neg = BytesBuffer::new(vec![0x80, 0x00, 0x00]);
    assert_eq!(neg.read_int24().unwrap(), -128);
}

#[test]
fn bytes_always_get_one_to_four_padding_bytes() {
    let mut b = BytesBuffer::new(vec![]);
    b.write_bytes(&[1, 2, 3]);
    assert_eq!(b.data(), &[3, 1, 2, 3, 0, 0, 0, 0]);
    b.write_bytes(&[9]);
    assert_eq!(b.data().len(), 8 + 1 + 1 + 2);
    b.seek(0);
    assert_eq!(b.read_bytes().unwrap(), vec![1, 2, 3]);
    assert_eq!(b.position(), 8);
    assert_eq!(b.read_bytes().unwrap(), vec![9]);
    assert_eq!(b.position(), 12);
}

#[test]
fn bytes_longer_than_the_buffer_fail() {
    let mut b = BytesBuffer::new(vec![4, 1, 2]);
    assert!(matches!(b.read_bytes(), Err(TlError::NotEnoughData)));
    let mut empty = BytesBuffer::new(vec![]);
    assert!(matches!(empty.read_bytes(), Err(TlError::NotEnoughData)));
}

#[test]
fn raw_round_trip() {
    let mut b = BytesBuffer::new(vec![]);
    b.write_raw(&[5, 6, 7, 8]);
    b.seek(2);
    assert_eq!(b.read_raw(2).unwrap(), vec![7, 8]);
    assert!(matches!(b.read_raw(1), Err(TlError::NotEnoughData)));
}

#[test]
fn req_pq_multi_writes_and_reads_back() {
    let obj = ReqPqMulti { hash: 0xbe7e8ef1, nonce: 123 };
    assert_eq!(obj.hash(), -1099002127);
    let mut b = BytesBuffer::new(vec![]);
    obj.write(&mut b);
    assert_eq!(b.data().len(), 20);
    assert_eq!(&b.data()[..4], &(-1099002127i32).to_le_bytes());
    b.seek(0);
    let reader = TlReader::new();
    match reader.read(&mut b).unwrap() {
        TlValue::ReqPqMulti(r) => {
            assert_eq!(r.nonce, 123);
            assert_eq!(r.hash, 0xbe7e8ef1);
        }
    }
    assert_eq!(b.position(), 20);
}

#[test]
fn reader_without_registration_names_the_number() {
    let mut b = BytesBuffer::new(7i32.to_le_bytes().to_vec());
    let reader = TlReader::new();
    match reader.read(&mut b) {
        Err(TlError::NoReader(h)) => assert_eq!(h, 7),
        _ => panic!("expected NoReader"),
    }
    assert_eq!(TlError::NoReader(7).message(), "No reader for 7");
    assert_eq!(TlError::NotEnoughData.message(), "Not enough data");
}

#[test]
fn first_registered_reader_wins() {
    let mut reader = TlReader::new();
    reader.add_reader(-1099002127, TlReaderFunction::ReqPqMulti);
    let mut b = BytesBuffer::new(vec![]);
    b.write_int(-1099002127);
    b.write_int128(5);
    b.seek(0);
    assert!(matches!(reader.read(&mut b), Ok(TlValue::ReqPqMulti(_))));
}

#[test]
fn req_pq_multi_needs_sixteen_bytes() {
    let mut b = BytesBuffer::new(vec![0; 15]);
    assert!(read_req_pq_multi(&mut b).is_none());
    assert_eq!(b.position(), 0);
    let mut ok = BytesBuffer::new(vec![1; 16]);
    assert_eq!(read_req_pq_multi(&mut ok).unwrap().nonce, 0x01010101010101010101010101010101);
}
