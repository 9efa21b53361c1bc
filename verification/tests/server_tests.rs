use aes::cipher::{KeyIvInit, StreamCipher};
use catte::server::obfuscation::ObfuscatedState;
use catte::bytes_buffer::BytesBuffer;
use catte::mtproto::ReqPqMulti;
use catte::server::connection::{
    batch_reactions, failed_call_reply, missing_key_message, response_action, Incoming, KeyStep, Reaction,
    SessionState,
};
use catte::server::key_exchange::{
    auth_key_aux_hash, auth_key_id_from_hash, check_dh_params, new_nonce_hash_from_sha,
    new_nonce_hash_input, nonce_bytes, padded_answer, pq_bytes, temp_key, tmp_aes_iv, tmp_aes_key,
    unpadded_inner_data, DhParamsError,
};
use catte::server::login::{require_authorized, LoginFlow};
use catte::server::mailbox::{
    distinct_ids, is_outgoing, mailbox_key, next_message_id, users_in_query, PeerRef,
};
use catte::server::plain_session::{find_handler, read_plain_request, write_plain_response};
use catte::server::session::{
    accept_session_id, encrypted_payload, frame_auth_key_id, needs_key_lookup, plain_payload,
    read_message_header, MessageIds, SessionError,
};
use catte::server::transport::{
    decode_frame_header, encode_frame, encode_frame_length, encode_short_frame,
    extended_frame_length, obfuscation_keys, short_frame_length, transport_kind, FrameHeader,
    TransportKind,
};
use catte::tl_buffer::{TlBuffer, TlBufferError};
use catte::tl_error::TlError;
use catte::tl_reader::{TlReader, TlValue};

#[test]
fn frame_headers() {
    assert_eq!(decode_frame_header(0x7f), FrameHeader::Extended { quick_ack: false });
    assert_eq!(decode_frame_header(0xff), FrameHeader::Extended { quick_ack: true });
    assert_eq!(decode_frame_header(0x85), FrameHeader::Short { length: 20, quick_ack: true });
    assert_eq!(decode_frame_header(0x05), FrameHeader::Short { length: 20, quick_ack: false });
    assert_eq!(decode_frame_header(0x00), FrameHeader::Short { length: 0, quick_ack: false });
    assert_eq!(extended_frame_length(&[0x01, 0x02, 0x03]), 0x030201 * 4);
}

#[test]
fn frame_lengths() {
    assert_eq!(encode_frame_length(20), vec![5]);
    assert_eq!(encode_frame_length(0x7e * 4 + 3), vec![0x7e]);
    assert_eq!(encode_frame_length(0x7f * 4), vec![0x7f, 0x7f, 0, 0]);
    assert_eq!(encode_frame_length(0x10000 * 4), vec![0x7f, 0, 0, 1]);
}

#[test]
fn frame_round_trip_short_and_extended() {
    let data: Vec<u8> = (0..40u8).collect();
    let f = encode_frame(&data);
    assert_eq!(f[0], 10);
    match decode_frame_header(f[0]) {
        FrameHeader::Short { length, quick_ack } => {
            assert_eq!(length, 40);
            assert!(!quick_ack);
            assert_eq!(&f[1..1 + length], &data[..]);
        }
        _ => panic!("short header expected"),
    }
    let big = vec![3u8; 600];
    let f = encode_frame(&big);
    assert_eq!(decode_frame_header(f[0]), FrameHeader::Extended { quick_ack: false });
    let n = extended_frame_length(&f[1..4]);
    assert_eq!(n, 600);
    assert_eq!(&f[4..4 + n], &big[..]);
}

#[test]
fn client_frames() {
    let f = encode_short_frame(&[1, 2, 3, 4, 5, 6, 7, 8]);
    assert_eq!(f, vec![2, 1, 2, 3, 4, 5, 6, 7, 8]);
    assert_eq!(short_frame_length(f[0]), 8);
    let wrapped = encode_short_frame(&vec![0u8; 1024]);
    assert_eq!(wrapped[0], 0);
}

#[test]
fn transport_kinds() {
    assert_eq!(transport_kind(0xef), TransportKind::Abridged);
    assert_eq!(transport_kind(0xee), TransportKind::Obfuscated);
}

#[test]
fn obfuscation_keys_mirror() {
    let nonce: Vec<u8> = (0..64u8).collect();
    let k = obfuscation_keys(&nonce);
    assert_eq!(k.encrypt_key, (8..40u8).collect::<Vec<u8>>());
    assert_eq!(k.encrypt_iv, (40..56u8).collect::<Vec<u8>>());
    assert_eq!(k.decrypt_key, (24..56u8).rev().collect::<Vec<u8>>());
    assert_eq!(k.decrypt_iv, (8..24u8).rev().collect::<Vec<u8>>());
}

#[test]
fn message_ids_increase_and_are_one_mod_four() {
    let mut ids = MessageIds::new();
    let a = ids.next_msg_id(1_700_000_000, 500);
    assert_eq!(a, ((1_700_000_000i64) << 32 | (500 << 2)) + 1);
    let b = ids.next_msg_id(1_700_000_000, 500);
    assert_eq!(b, a + 4);
    let c = ids.next_msg_id(1_600_000_000, 0);
    assert_eq!(c, b + 4);
    let d = ids.next_msg_id(1_800_000_000, 4);
    assert_eq!(d, ((1_800_000_000i64) << 32 | 16) + 1);
    for id in [a, b, c, d] {
        assert_eq!(id.rem_euclid(4), 1);
    }
}

#[test]
fn message_id_seconds_wrap_to_32_bits() {
    let mut ids = MessageIds::new();
    let a = ids.next_msg_id((1u64 << 32) + 3, 0);
    assert_eq!(a, (3i64 << 32) + 1);
    let mut late = MessageIds::new();
    let b = late.next_msg_id(0x8000_0000, 0);
    assert_eq!(b, 5);
}

#[test]
fn sequence_numbers_count_up() {
    let mut ids = MessageIds::new();
    assert_eq!(ids.next_seq_no(), 0);
    assert_eq!(ids.next_seq_no(), 1);
    assert_eq!(ids.next_seq_no(), 2);
}

#[test]
fn single_encrypted_payload() {
    let p = encrypted_payload(7, 9, 2, &vec![vec![1, 2, 3, 4]]);
    let mut expected = vec![0u8; 8];
    expected.extend(7i64.to_le_bytes());
    expected.extend(9i64.to_le_bytes());
    expected.extend(2i32.to_le_bytes());
    expected.extend(12i32.to_le_bytes());
    expected.extend([1, 2, 3, 4]);
    assert_eq!(p, expected);
}

#[test]
fn container_encrypted_payload() {
    let p = encrypted_payload(1, 2, 3, &vec![vec![1, 1, 1, 1], vec![2, 2, 2, 2]]);
    let body_len = 4 + 4 + 8;
    assert_eq!(&p[28..32], &((body_len + 8) as i32).to_le_bytes());
    assert_eq!(&p[32..36], &1945237724i32.to_le_bytes());
    assert_eq!(&p[36..40], &2i32.to_le_bytes());
    assert_eq!(&p[40..], &[1, 1, 1, 1, 2, 2, 2, 2]);
}

#[test]
fn unencrypted_payload() {
    let p = plain_payload(-5, &vec![9, 9]);
    let mut expected = vec![0u8; 8];
    expected.extend((-5i64).to_le_bytes());
    expected.extend(2i32.to_le_bytes());
    expected.extend([9, 9]);
    assert_eq!(p, expected);
}

#[test]
fn request_headers() {
    assert_eq!(frame_auth_key_id(&[1, 0, 0, 0, 0, 0, 0, 0, 99]), 1);
    assert_eq!(frame_auth_key_id(&[0xff; 8]), -1);
    assert!(needs_key_lookup(false, 5));
    assert!(!needs_key_lookup(true, 5));
    assert!(!needs_key_lookup(false, 0));
    let mut raw = vec![];
    raw.extend(11i64.to_le_bytes());
    raw.extend(22i64.to_le_bytes());
    raw.extend(33i64.to_le_bytes());
    raw.extend(44i32.to_le_bytes());
    raw.extend(4i32.to_le_bytes());
    raw.extend([7, 7, 7, 7]);
    let mut buf = TlBuffer::new(raw);
    let h = read_message_header(&mut buf).unwrap();
    assert_eq!((h.salt, h.session_id, h.msg_id, h.seq_no, h.length), (11, 22, 33, 44, 4));
    assert_eq!(buf.read_raw(h.length as usize).unwrap(), vec![7, 7, 7, 7]);
    let mut short = TlBuffer::new(vec![0; 31]);
    match read_message_header(&mut short) {
        Err(TlBufferError::NotEnoughData(s)) => assert_eq!(s, "$t"),
        _ => panic!("shortage expected"),
    }
}

#[test]
fn session_ids() {
    assert_eq!(accept_session_id(0, 0), Err(SessionError::ZeroSessionId));
    assert_eq!(accept_session_id(0, 5), Ok((5, true)));
    assert_eq!(accept_session_id(5, 5), Ok((5, false)));
    assert_eq!(accept_session_id(5, 6), Err(SessionError::SessionChanged));
    assert_eq!(SessionError::ZeroSessionId.message(), "cannot have session_id == 0");
    assert_eq!(SessionError::SessionChanged.message(), "session_id changed");
}

#[test]
fn sign_in_flow() {
    let mut flow = LoginFlow::new();
    assert_eq!(flow.check_sign_up(false).unwrap_err().code, 406);
    assert!(flow.send_code(false, "+100".to_string()).is_ok());
    assert_eq!(flow.phone_number, "+100");
    assert_eq!(flow.code, "12345");
    let e = flow.check_sign_in(false, None).unwrap_err();
    assert_eq!((e.code, e.message.as_str()), (400, "PHONE_CODE_EMPTY"));
    let e = flow.check_sign_in(false, Some("00000".to_string())).unwrap_err();
    assert_eq!((e.code, e.message.as_str()), (400, "PHONE_CODE_INVALID"));
    assert!(!flow.phone_number_verified);
    assert!(flow.check_sign_in(false, Some("12345".to_string())).is_ok());
    assert!(flow.phone_number_verified);
    assert!(flow.check_sign_up(false).is_ok());
    let e = flow.check_sign_up(true).unwrap_err();
    assert_eq!((e.code, e.message.as_str()), (500, "PHONE_NUMBER_FLOOD"));
    let e = flow.check_sign_in(true, Some("12345".to_string())).unwrap_err();
    assert_eq!((e.code, e.message.as_str()), (500, "SIGN_IN_FAILED"));
    let e = flow.send_code(true, "+1".to_string()).unwrap_err();
    assert_eq!((e.code, e.message.as_str()), (400, "PHONE_NUMBER_FLOOD"));
    assert_eq!(flow.phone_number, "+100");
    let e = require_authorized(false).unwrap_err();
    assert_eq!((e.code, e.message.as_str()), (401, "UNAUTHORIZED"));
    assert!(require_authorized(true).is_ok());
}

#[test]
fn mailboxes() {
    assert_eq!(mailbox_key(5, PeerRef::SelfPeer), (5, Some(5)));
    assert_eq!(mailbox_key(5, PeerRef::User(3)), (3, Some(5)));
    assert_eq!(mailbox_key(3, PeerRef::User(5)), (3, Some(5)));
    assert!(is_outgoing(4, 4));
    assert!(!is_outgoing(4, 5));
    assert_eq!(distinct_ids(&vec![3, 1, 3, 2, 1]), vec![3, 1, 2]);
    assert_eq!(distinct_ids(&vec![]), Vec::<i64>::new());
    assert_eq!(users_in_query(1), "SELECT * FROM users WHERE id IN (?)");
    assert_eq!(users_in_query(3), "SELECT * FROM users WHERE id IN (?, ?, ?)");
}

#[test]
fn pq_and_dh_checks() {
    assert_eq!(pq_bytes(1305305213, 1774703071), (1305305213u64 * 1774703071u64).to_be_bytes().to_vec());
    let p = 1305305213u32.to_be_bytes();
    let q = 1774703071u32.to_be_bytes();
    assert_eq!(check_dh_params(1, 2, 3, 1, 2, 3, &p, &q), Ok(()));
    assert_eq!(check_dh_params(1, 2, 3, 1, 2, 3, &q, &p), Err(DhParamsError::FactorizationFailed));
    assert_eq!(check_dh_params(1, 2, 3, 9, 2, 3, &[], &[]), Err(DhParamsError::NonceAltered));
    assert_eq!(check_dh_params(1, 2, 3, 1, 9, 3, &[], &[]), Err(DhParamsError::NonceAltered));
    assert_eq!(check_dh_params(1, 2, 3, 1, 2, 4, &[], &[]), Err(DhParamsError::UnknownFingerprint));
    assert_eq!(DhParamsError::NonceAltered.message(), "nonce values altered");
    assert_eq!(DhParamsError::UnknownFingerprint.message(), "unknown fingerprint");
    assert_eq!(DhParamsError::FactorizationFailed.message(), "pq factorization failed");
}

#[test]
fn temporary_aes_material() {
    let n1: Vec<u8> = (0..20u8).collect();
    let n2: Vec<u8> = (100..120u8).collect();
    let key = tmp_aes_key(&n1, &n2);
    assert_eq!(&key[..20], &n1[..]);
    assert_eq!(&key[20..], &n2[..12]);
    let new_nonce = vec![9u8; 32];
    let iv = tmp_aes_iv(&n2, &n1, &new_nonce);
    assert_eq!(&iv[..8], &n2[12..]);
    assert_eq!(&iv[8..28], &n1[..]);
    assert_eq!(&iv[28..], &[9, 9, 9, 9]);
    let mut joined = key[20..].to_vec();
    joined.extend(&iv[..8]);
    assert_eq!(joined, n2);
}

#[test]
fn answer_padding() {
    let p = padded_answer(&[1; 20], &[2; 12]);
    assert_eq!(p.len(), 48);
    assert_eq!(&p[32..], &[0u8; 16]);
    let q = padded_answer(&[1; 20], &[2; 13]);
    assert_eq!(q.len(), 48);
    assert_eq!(q[32], 2);
    assert_eq!(&q[33..], &[0u8; 15]);
}

#[test]
fn key_identifiers() {
    let sha: Vec<u8> = (1..=20u8).collect();
    assert_eq!(auth_key_id_from_hash(&sha), i64::from_le_bytes([13, 14, 15, 16, 17, 18, 19, 20]));
    assert_eq!(auth_key_aux_hash(&sha), (1..=8u8).collect::<Vec<u8>>());
    let input = new_nonce_hash_input(&[7; 32], &[1, 2]);
    assert_eq!(input.len(), 35);
    assert_eq!(input[32], 1);
    let mut expected = [0u8; 16];
    expected.copy_from_slice(&sha[4..]);
    assert_eq!(new_nonce_hash_from_sha(&sha), i128::from_le_bytes(expected));
    assert_eq!(nonce_bytes(-2), (-2i128).to_le_bytes().to_vec());
}

#[test]
fn extended_padding_unwrapping() {
    let k = temp_key(&[0xff; 32], &[0x0f; 32]);
    assert_eq!(k, vec![0xf0; 32]);
    let data: Vec<u8> = (0..40u8).collect();
    assert_eq!(unpadded_inner_data(&data), (0..8u8).rev().collect::<Vec<u8>>());
}

#[test]
fn plain_request_and_response() {
    let obj = ReqPqMulti { hash: 0xbe7e8ef1, nonce: 77 };
    let frame = write_plain_response(&obj);
    assert_eq!(frame.len(), 40);
    assert_eq!(&frame[..20], &[0u8; 20]);
    let reader = TlReader::new();
    match read_plain_request(&reader, frame) {
        Ok(TlValue::ReqPqMulti(r)) => assert_eq!(r.nonce, 77),
        _ => panic!("object expected"),
    }
    assert!(matches!(read_plain_request(&reader, vec![0; 21]), Err(TlError::NotEnoughData)));
    let mut b = BytesBuffer::new(vec![0; 20]);
    b.seek(20);
    b.write_int(99);
    assert!(matches!(read_plain_request(&reader, b.data().to_vec()), Err(TlError::NoReader(99))));
    assert_eq!(find_handler(&vec![1, 2, 2], 2), Some(1));
    assert_eq!(find_handler(&vec![1, 2, 2], 3), None);
}

#[test]
fn connection_state() {
    let mut s = SessionState::new();
    assert_eq!(s.auth_key, vec![0u8; 256]);
    assert_eq!(s.on_frame_key(0), KeyStep::Keep);
    assert_eq!(s.on_frame_key(42), KeyStep::LookUp(42));
    s.on_key_found(42, vec![1; 256]);
    assert!(s.encrypted);
    assert_eq!(s.on_frame_key(43), KeyStep::Keep);
    assert_eq!(s.on_session(0), Err(SessionError::ZeroSessionId));
    assert_eq!(s.on_session(9), Ok(true));
    assert_eq!(s.id, 9);
    assert_eq!(s.on_session(9), Ok(false));
    assert_eq!(s.on_session(10), Err(SessionError::SessionChanged));
    assert_eq!(s.id, 9);
    s.on_user_found();
    assert!(s.authorized);
    assert_eq!(s.get_seq_no(), 0);
    assert_eq!(s.get_seq_no(), 1);
    let a = s.get_msg_id(100, 0);
    let b = s.get_msg_id(100, 0);
    assert!(b > a);
    let mut t = SessionState::new();
    assert_eq!(t.on_key_missing(5), "cannot find auth_key for 5");
    assert!(t.closed);
    assert_eq!(missing_key_message(-3), "cannot find auth_key for -3");
}

#[test]
fn message_numbers() {
    assert_eq!(next_message_id(None), 1);
    assert_eq!(next_message_id(Some(0)), 1);
    assert_eq!(next_message_id(Some(41)), 42);
}

#[test]
fn connection_loop_reactions() {
    match response_action(Incoming::Undecodable { msg_id: 77, error: "short".to_string() }) {
        Reaction::Reply(e) => {
            assert_eq!(e.req_msg_id, Some(77));
            assert_eq!(e.error_code, 0);
            assert_eq!(e.error_message, "deserialization error: short");
        }
        _ => panic!("reply expected"),
    }
    assert!(matches!(response_action(Incoming::Ack), Reaction::Skip));
    assert!(matches!(response_action(Incoming::Result), Reaction::Skip));
    assert!(matches!(response_action(Incoming::Request), Reaction::Invoke));
    let e = failed_call_reply("no such method".to_string());
    assert_eq!((e.req_msg_id, e.error_code, e.error_message.as_str()), (None, 0, "no such method"));
}

#[test]
fn successive_message_ids_are_four_apart() {
    let mut s = SessionState::new();
    let a = s.get_msg_id(1_700_000_000, 0);
    let b = s.get_msg_id(1_600_000_000, 0);
    assert_eq!(a.rem_euclid(4), 1);
    assert_eq!(b.rem_euclid(4), 1);
    assert!(b >= a + 4);
}

#[test]
fn batch_reactions_keep_order() {
    let r = batch_reactions(vec![
        Incoming::Request,
        Incoming::Ack,
        Incoming::Undecodable { msg_id: 5, error: "bad".to_string() },
        Incoming::Result,
    ]);
    assert_eq!(r.len(), 4);
    assert!(matches!(r[0], Reaction::Invoke));
    assert!(matches!(r[1], Reaction::Skip));
    match &r[2] {
        Reaction::Reply(e) => {
            assert_eq!(e.req_msg_id, Some(5));
            assert_eq!(e.error_message, "deserialization error: bad");
        }
        _ => panic!("reply expected"),
    }
    assert!(matches!(r[3], Reaction::Skip));
    assert!(batch_reactions(vec![]).is_empty());
}

#[test]
fn obfuscated_streams_follow_the_original_ciphers() {
    let nonce: Vec<u8> = (0..64u8).map(|b| b.wrapping_mul(7).wrapping_add(3)).collect();
    let mut state = ObfuscatedState::open_obfuscated(&nonce);
    assert_eq!((state.incoming_offset(), state.outgoing_offset()), (64, 0));
    let reversed: Vec<u8> = nonce[8..56].iter().cloned().rev().collect();
    let mut incoming = ctr::Ctr32BE::<aes::Aes256>::new_from_slices(&nonce[8..40], &nonce[40..56]).unwrap();
    let mut outgoing = ctr::Ctr32BE::<aes::Aes256>::new_from_slices(&reversed[..32], &reversed[32..48]).unwrap();
    let mut header = nonce.clone();
    incoming.apply_keystream(&mut header);
    let message: Vec<u8> = (0..50u8).collect();
    let mut expected = message.clone();
    incoming.apply_keystream(&mut expected);
    let mut first = message[..13].to_vec();
    let mut second = message[13..].to_vec();
    state.decrypt_incoming(&mut first);
    state.decrypt_incoming(&mut second);
    first.extend(second);
    assert_eq!(first, expected);
    assert_eq!(state.incoming_offset(), 114);
    let mut sent = message.clone();
    state.encrypt_outgoing(&mut sent);
    let mut expected_sent = message.clone();
    outgoing.apply_keystream(&mut expected_sent);
    assert_eq!(sent, expected_sent);
    assert_ne!(sent, message);
    assert_eq!(state.outgoing_offset(), 50);
}
