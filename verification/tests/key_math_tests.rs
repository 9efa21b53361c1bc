use catte::server::auth_flow::{rsa_inner_bytes, AuthKeyFlow, InnerFields, InnerStep, CURRENT_PRIME};
use catte::server::key_exchange::{padded_answer, temp_key};
use catte::server::key_math::{
    decrypt_client_inner, dh_auth_key, dh_public_value, encrypt_answer, rsa_decrypt, rsa_pad_inner,
};
use num_bigint::BigUint;

#[test]
fn answer_is_ige_encrypted_padding() {
    let key = [7u8; 32];
    let iv = [9u8; 32];
    let hash = [1u8; 20];
    let inner = [2u8; 30];
    let answer = encrypt_answer(&hash, &inner, &key, &iv);
    let plain = padded_answer(&hash, &inner);
    assert_eq!(answer.len(), 64);
    assert_ne!(answer, plain);
    let mut back = answer.clone();
    grammers_crypto::aes::ige_decrypt(&mut back, &key, &iv);
    assert_eq!(back, plain);
}

#[test]
fn client_inner_data_skips_24_bytes() {
    let key = [3u8; 32];
    let iv = [4u8; 32];
    let plain: Vec<u8> = (0..48u8).collect();
    let mut encrypted = plain.clone();
    grammers_crypto::aes::ige_encrypt(&mut encrypted, &key, &iv);
    assert_eq!(decrypt_client_inner(&encrypted, &key, &iv), plain[24..].to_vec());
}

#[test]
fn rsa_padding_is_unwrapped() {
    let decrypted: Vec<u8> = (0..96u8).collect();
    let sha = [0x55u8; 32];
    let key = temp_key(&decrypted[..32], &sha);
    let mut rest = decrypted[32..].to_vec();
    grammers_crypto::aes::ige_decrypt(&mut rest, key.as_slice().try_into().unwrap(), &[0u8; 32]);
    let mut expected = rest[..rest.len() - 32].to_vec();
    expected.reverse();
    let inner = rsa_pad_inner(&decrypted, &sha);
    assert_eq!(inner, expected);
    assert_eq!(inner.len(), 32);
}

#[test]
fn modular_powers() {
    assert_eq!(rsa_decrypt(&[4], &[13], &[0x01, 0xf1]), vec![0x01, 0xbd]);
    assert_eq!(rsa_decrypt(&[5], &[0], &[7]), vec![1]);
    assert_eq!(rsa_decrypt(&[7], &[1], &[7]), vec![0]);
    assert_eq!(dh_public_value(3, &[2], &[23]), vec![9]);
    assert_eq!(dh_public_value(3, &[0, 1], &[0x01, 0x01]), BigUint::from(3u32).modpow(&BigUint::from(256u32), &BigUint::from(257u32)).to_bytes_be());
    let mut prime = vec![0u8; 255];
    prime.push(23);
    let key = dh_auth_key(&[5], &[3], &prime);
    let mut expected = vec![10u8];
    expected.extend(vec![0u8; 255]);
    assert_eq!(key, expected);
}

#[test]
fn key_exchange_state() {
    let mut flow = AuthKeyFlow::new();
    assert_eq!(flow.g, 3);
    assert_eq!(flow.new_nonce, vec![0u8; 32]);
    let pq = flow.answer_req_pq(11, -168111077373544806074672857131836382372);
    assert_eq!(pq, (1305305213u64 * 1774703071u64).to_be_bytes().to_vec());
    assert_eq!((flow.nonce, flow.p, flow.q), (11, 1305305213, 1774703071));
    assert_eq!(flow.server_nonce, -168111077373544806074672857131836382372);
    flow.new_nonce = vec![8u8; 32];
    let h_ns = [1u8; 20];
    let h_sn: Vec<u8> = (0..20u8).collect();
    let h_nn = [2u8; 20];
    flow.set_tmp_aes(&h_ns, &h_sn, &h_nn);
    assert_eq!(&flow.tmp_aes_key[..20], &h_ns);
    assert_eq!(&flow.tmp_aes_key[20..], &h_sn[..12]);
    assert_eq!(&flow.tmp_aes_iv[..8], &h_sn[12..]);
    assert_eq!(&flow.tmp_aes_iv[8..28], &h_nn);
    assert_eq!(&flow.tmp_aes_iv[28..], &[8, 8, 8, 8]);
    flow.choose_secret();
    assert_eq!(flow.a, vec![123u8; 256]);
    let a = BigUint::from_bytes_le(&[123u8; 256]);
    let p = BigUint::from_bytes_be(&CURRENT_PRIME);
    assert_eq!(flow.g_a, BigUint::from(3u32).modpow(&a, &p).to_bytes_be());
    let g_b = BigUint::from(5u32).modpow(&BigUint::from(77u32), &p).to_bytes_be();
    let key = flow.auth_key(&g_b);
    let mut expected = BigUint::from_bytes_be(&g_b).modpow(&a, &p).to_bytes_be();
    expected.resize(256, 0);
    assert_eq!(key, expected);
}

#[test]
fn plain_inner_data_is_taken() {
    let mut f = AuthKeyFlow::new();
    let block: Vec<u8> = (0..40u8).collect();
    assert_eq!(rsa_inner_bytes(&block), (20..40u8).collect::<Vec<u8>>());
    let step = f.on_plain_inner(
        &block,
        Some(InnerFields { nonce: 5, server_nonce: -6, new_nonce: vec![3; 32] }),
    );
    assert!(matches!(step, InnerStep::Accepted));
    assert_eq!((f.nonce, f.server_nonce), (5, -6));
    assert_eq!(f.new_nonce, vec![3; 32]);
    assert_eq!(f.g, 3);
}

#[test]
fn padded_inner_data_is_unwrapped_first() {
    let mut f = AuthKeyFlow::new();
    let block: Vec<u8> = (0..80u8).collect();
    match f.on_plain_inner(&block, None) {
        InnerStep::Unpad(rest) => assert_eq!(rest, (32..80u8).collect::<Vec<u8>>()),
        InnerStep::Accepted => panic!("padding expected"),
    }
    assert_eq!(f.nonce, 0);
    let failed: Result<(), &str> = f.on_padded_inner(Err("bad block"));
    assert_eq!(failed, Err("bad block"));
    assert_eq!(f.new_nonce, vec![0; 32]);
    let ok: Result<(), &str> =
        f.on_padded_inner(Ok(InnerFields { nonce: 1, server_nonce: 2, new_nonce: vec![4; 32] }));
    assert_eq!(ok, Ok(()));
    assert_eq!((f.nonce, f.server_nonce), (1, 2));
    assert_eq!(f.new_nonce, vec![4; 32]);
}

#[test]
fn exchange_answers_use_the_temporary_key() {
    let mut f = AuthKeyFlow::new();
    f.tmp_aes_key = vec![7; 32];
    f.tmp_aes_iv = vec![9; 32];
    let hash = [1u8; 20];
    let inner = [2u8; 30];
    assert_eq!(f.dh_answer(&hash, &inner), encrypt_answer(&hash, &inner, &[7; 32], &[9; 32]));
    let mut encrypted: Vec<u8> = (0..48u8).collect();
    grammers_crypto::aes::ige_encrypt(&mut encrypted, &[7; 32], &[9; 32]);
    assert_eq!(f.client_inner(&encrypted), (24..48u8).collect::<Vec<u8>>());
}

#[test]
fn dh_gen_splits_the_key_hash() {
    let mut f = AuthKeyFlow::new();
    f.new_nonce = vec![5; 32];
    let sha: Vec<u8> = (1..21u8).collect();
    let g = f.dh_gen(&sha);
    assert_eq!(g.auth_key_id, i64::from_le_bytes([13, 14, 15, 16, 17, 18, 19, 20]));
    let mut expected = vec![5u8; 32];
    expected.push(1);
    expected.extend(1..9u8);
    assert_eq!(g.nonce_hash_input, expected);
}

#[test]
fn encrypted_answers_are_whole_blocks() {
    for n in 0..40usize {
        let inner = vec![3u8; n];
        let answer = encrypt_answer(&[1u8; 20], &inner, &[7; 32], &[9; 32]);
        assert_eq!(answer.len() % 16, 0);
        assert_eq!(answer.len(), padded_answer(&[1u8; 20], &inner).len());
    }
}

#[test]
fn temporary_key_comes_from_the_nonces() {
    let mut f = AuthKeyFlow::new();
    f.server_nonce = -168111077373544806074672857131836382372;
    f.new_nonce = (0..32u8).collect();
    f.derive_tmp_aes();
    let new_nonce: [u8; 32] = core::array::from_fn(|i| i as u8);
    let (key, iv) = grammers_crypto::generate_key_data_from_nonce(&f.server_nonce.to_le_bytes(), &new_nonce);
    assert_eq!(f.tmp_aes_key, key.to_vec());
    assert_eq!(f.tmp_aes_iv, iv.to_vec());
    assert_eq!(&f.tmp_aes_iv[28..], &[0, 1, 2, 3]);
    assert_eq!(f.nonce, 0);
}

#[test]
fn dh_answer_preparation_sets_keys_and_secret() {
    let mut f = AuthKeyFlow::new();
    f.server_nonce = 99;
    f.new_nonce = vec![8; 32];
    f.prepare_dh_answer();
    assert_eq!(f.tmp_aes_key.len(), 32);
    assert_eq!(f.a, vec![123u8; 256]);
    let expected = BigUint::from(3u32).modpow(&BigUint::from_bytes_le(&[123u8; 256]), &BigUint::from_bytes_be(&CURRENT_PRIME));
    assert_eq!(f.g_a, expected.to_bytes_be());
}
