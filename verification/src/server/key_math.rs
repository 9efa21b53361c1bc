//! The cryptographic steps of the authorization key exchange that call
//! outside code: AES-IGE (grammers-crypto) and modular powers of big
//! numbers (num-bigint), with the byte layouts around them.
use vstd::prelude::*;
use vstd::arithmetic::power::pow;
use crate::encoding::{le_uint, pow256, lemma_pow256_monotone, lemma_le_uint_bound, append_all};
use crate::buffer_model::zeros;
use crate::server::key_exchange::{
    be_uint, padded_answer, padded_answer_spec, temp_key, temp_key_spec, unpadded_inner_data, nonce_bytes,
};
use crate::encoding::le_int_bytes;
use num_bigint::BigUint;

verus! {

/// What AES-IGE encryption with `key` and `iv` makes of `data`.
pub uninterp spec fn aes_ige_encrypt(data: Seq<u8>, key: Seq<u8>, iv: Seq<u8>) -> Seq<u8>;

/// What AES-IGE decryption with `key` and `iv` makes of `data`.
pub uninterp spec fn aes_ige_decrypt(data: Seq<u8>, key: Seq<u8>, iv: Seq<u8>) -> Seq<u8>;

/// grammers-crypto's `aes::ige_encrypt`: encrypts the buffer in place, whose
/// length must be a multiple of 16 (it asserts so).  The result is named as a
/// function of the data, the key and the vector.
#[verifier::external_body]
fn ige_encrypt(buffer: &mut Vec<u8>, key: &[u8], iv: &[u8])
    requires
        old(buffer)@.len() % 16 == 0,
        key@.len() == 32,
        iv@.len() == 32,
    ensures
        final(buffer)@ == aes_ige_encrypt(old(buffer)@, key@, iv@),
        final(buffer)@.len() == old(buffer)@.len(),
{
    grammers_crypto::aes::ige_encrypt(buffer.as_mut_slice(), key.try_into().unwrap(), iv.try_into().unwrap())
}

/// grammers-crypto's `aes::ige_decrypt`: decrypts the buffer in place, whose
/// length must be a multiple of 16 (it asserts so).  The result is named as a
/// function of the data, the key and the vector.
#[verifier::external_body]
fn ige_decrypt(buffer: &mut Vec<u8>, key: &[u8], iv: &[u8])
    requires
        old(buffer)@.len() % 16 == 0,
        key@.len() == 32,
        iv@.len() == 32,
    ensures
        final(buffer)@ == aes_ige_decrypt(old(buffer)@, key@, iv@),
        final(buffer)@.len() == old(buffer)@.len(),
{
    grammers_crypto::aes::ige_decrypt(buffer.as_mut_slice(), key.try_into().unwrap(), iv.try_into().unwrap())
}

/// What grammers-crypto's `generate_key_data_from_nonce` makes of a server
/// nonce and a new nonce: the temporary AES key and vector of the key
/// exchange.
pub uninterp spec fn nonce_key_data(server_nonce: Seq<u8>, new_nonce: Seq<u8>) -> (Seq<u8>, Seq<u8>);

/// grammers-crypto's `generate_key_data_from_nonce`, which takes a 16-byte
/// server nonce and a 32-byte new nonce and returns a 32-byte key and a
/// 32-byte vector; the pair is named as a function of the two nonces, and,
/// as its source shows, the vector ends with the new nonce's first four
/// bytes.  What SHA-1 computes inside it is not stated.
#[verifier::external_body]
fn key_data_from_nonce(server_nonce: &[u8], new_nonce: &[u8]) -> (r: (Vec<u8>, Vec<u8>))
    requires
        server_nonce@.len() == 16,
        new_nonce@.len() == 32,
    ensures
        (r.0@, r.1@) == nonce_key_data(server_nonce@, new_nonce@),
        r.0@.len() == 32,
        r.1@.len() == 32,
        r.1@.subrange(28, 32) == new_nonce@.subrange(0, 4),
{
    let (key, iv) = grammers_crypto::generate_key_data_from_nonce(
        server_nonce.try_into().unwrap(),
        new_nonce.try_into().unwrap(),
    );
    (key.to_vec(), iv.to_vec())
}

/// The temporary AES key and vector of the key exchange, from the server
/// nonce (its 16 little-endian bytes) and the new nonce.
pub fn tmp_aes_from_nonces(server_nonce: i128, new_nonce: &[u8]) -> (r: (Vec<u8>, Vec<u8>))
    requires
        new_nonce@.len() == 32,
    ensures
        (r.0@, r.1@) == nonce_key_data(le_int_bytes(server_nonce as int, 16), new_nonce@),
        r.0@.len() == 32,
        r.1@.len() == 32,
        r.1@.subrange(28, 32) == new_nonce@.subrange(0, 4),
{
    let s = nonce_bytes(server_nonce);
    proof {
        crate::encoding::lemma_le_bytes_len(crate::encoding::unsigned_of(server_nonce as int, 16), 16);
    }
    key_data_from_nonce(s.as_slice(), new_nonce)
}

/// The bytes are the shortest big-endian form of a number: one byte for
/// zero, no leading zero otherwise.
pub open spec fn minimal_be(s: Seq<u8>) -> bool {
    s.len() >= 1 && (s.len() > 1 ==> s[0] != 0)
}

/// num-bigint's `BigUint::modpow` on numbers given and returned as big-endian
/// bytes (`from_bytes_be`, `to_bytes_be`): `(base ^ exponent) % modulus`,
/// which panics on a zero modulus.  The value is stated for moduli above one;
/// the result is in the shortest form `to_bytes_be` gives.
#[verifier::external_body]
fn modpow_be(base: &[u8], exponent: &[u8], modulus: &[u8]) -> (r: Vec<u8>)
    requires
        be_uint(modulus@) != 0,
    ensures
        be_uint(modulus@) > 1 ==> be_uint(r@) == pow(be_uint(base@) as int, be_uint(exponent@)) % (be_uint(
            modulus@,
        ) as int),
        minimal_be(r@),
{
    BigUint::from_bytes_be(base).modpow(&BigUint::from_bytes_be(exponent), &BigUint::from_bytes_be(modulus)).to_bytes_be()
}

/// The reversal of a byte sequence.
fn reversed(s: &[u8]) -> (r: Vec<u8>)
    ensures
        r@ == s@.reverse(),
{
    let mut r: Vec<u8> = Vec::new();
    let mut i: usize = s.len();
    while i > 0
        invariant
            i <= s@.len(),
            r@.len() == s@.len() - i,
            forall|j: int| 0 <= j < r@.len() ==> r@[j] == s@[s@.len() - 1 - j],
        decreases i,
    {
        r.push(s[i - 1]);
        i = i - 1;
    }
    assert(r@ =~= s@.reverse());
    r
}

/// A little-endian value whose last byte is not zero is at least
/// `256^(n - 1)` times that byte.
pub proof fn lemma_le_uint_top(s: Seq<u8>)
    requires
        s.len() >= 1,
    ensures
        le_uint(s) >= pow256((s.len() - 1) as nat) * s[s.len() - 1],
    decreases s.len(),
{
    if s.len() > 1 {
        lemma_le_uint_top(s.drop_first());
        assert(s.drop_first()[s.drop_first().len() - 1] == s[s.len() - 1]);
        assert(pow256((s.len() - 1) as nat) == 256 * pow256((s.len() - 2) as nat));
        let t = pow256((s.len() - 2) as nat) * s[s.len() - 1];
        assert(pow256((s.len() - 1) as nat) * s[s.len() - 1] == 256 * t) by (nonlinear_arith)
            requires
                pow256((s.len() - 1) as nat) == 256 * pow256((s.len() - 2) as nat),
                t == pow256((s.len() - 2) as nat) * s[s.len() - 1],
        ;
        let l = le_uint(s.drop_first());
        assert(l >= t);
        assert(256 * l >= 256 * t) by (nonlinear_arith)
            requires
                l >= t,
        ;
        assert(le_uint(s) == s[0] as nat + 256 * l);
    } else {
        assert(s.drop_first().len() == 0);
        assert(le_uint(s.drop_first()) == 0);
        assert(le_uint(s) == s[0] as nat);
        assert(pow256(0) == 1);
        assert((s.len() - 1) as nat == 0nat);
        assert(pow256((s.len() - 1) as nat) * s[s.len() - 1] == s[0] as int);
    }
}

/// A number in shortest big-endian form that is below `m` takes no more
/// bytes than `m`.
proof fn lemma_minimal_len(s: Seq<u8>, m: Seq<u8>)
    requires
        minimal_be(s),
        be_uint(s) < be_uint(m),
    ensures
        s.len() <= m.len(),
{
    if s.len() > m.len() {
        let r = s.reverse();
        lemma_le_uint_top(r);
        assert(r[r.len() - 1] == s[0]);
        lemma_le_uint_bound(m.reverse());
        lemma_pow256_monotone(m.len(), (s.len() - 1) as nat);
        assert(pow256((s.len() - 1) as nat) * s[0] >= pow256((s.len() - 1) as nat)) by (nonlinear_arith)
            requires
                s[0] >= 1,
        ;
    }
}

/// The server's Diffie-Hellman secret of the key exchange: 256 bytes of 123,
/// read little-endian.
pub open spec fn dh_secret() -> Seq<u8> {
    Seq::new(256, |i: int| 123u8)
}

/// `g ^ a mod prime`, big-endian: the server's public Diffie-Hellman value,
/// for the secret `a_le` given little-endian.
pub open spec fn dh_public_spec(g: int, a_le: Seq<u8>, prime: Seq<u8>) -> nat {
    (pow(g, le_uint(a_le)) % (be_uint(prime) as int)) as nat
}

/// The big-endian bytes of a 32-bit value.
fn be_bytes_u32(v: u32) -> (r: Vec<u8>)
    ensures
        be_uint(r@) == v,
{
    let le = crate::encoding::write_le(v as u128, 4);
    proof {
        crate::encoding::lemma_pow256_values();
        reveal_with_fuel(pow256, 5);
        crate::encoding::lemma_le_roundtrip(v as nat, 4);
    }
    let r = reversed(le.as_slice());
    assert(r@.reverse() =~= le@);
    r
}

/// The server's public Diffie-Hellman value `g ^ a mod prime`, big-endian.
pub fn dh_public_value(g: i32, a_le: &[u8], prime: &[u8]) -> (r: Vec<u8>)
    requires
        g >= 0,
        be_uint(prime@) > 1,
    ensures
        be_uint(r@) == dh_public_spec(g as int, a_le@, prime@),
        minimal_be(r@),
{
    let base = be_bytes_u32(g as u32);
    let exponent = reversed(a_le);
    assert(exponent@.reverse() =~= a_le@);
    modpow_be(base.as_slice(), exponent.as_slice(), prime)
}

/// The authorization key `g_b ^ a mod prime`: its big-endian bytes at the
/// start of 256 bytes, the rest zero.
pub open spec fn dh_auth_key_spec(value: Seq<u8>) -> Seq<u8> {
    value + zeros(256 - value.len())
}

/// The authorization key from the client's public value `g_b`, the
/// server's secret `a_le` (little-endian) and a 256-byte prime.
pub fn dh_auth_key(g_b: &[u8], a_le: &[u8], prime: &[u8]) -> (r: Vec<u8>)
    requires
        prime@.len() == 256,
        be_uint(prime@) > 1,
    ensures
        r@.len() == 256,
        exists|v: Seq<u8>|
            r@ == dh_auth_key_spec(v) && minimal_be(v) && be_uint(v) == pow(
                be_uint(g_b@) as int,
                le_uint(a_le@),
            ) % (be_uint(prime@) as int),
{
    let exponent = reversed(a_le);
    assert(exponent@.reverse() =~= a_le@);
    let v = modpow_be(g_b, exponent.as_slice(), prime);
    proof {
        vstd::arithmetic::div_mod::lemma_mod_bound(
            pow(be_uint(g_b@) as int, le_uint(a_le@)),
            be_uint(prime@) as int,
        );
        lemma_minimal_len(v@, prime@);
    }
    let mut r: Vec<u8> = Vec::new();
    append_all(&mut r, v.as_slice());
    let mut k: usize = v.len();
    while k < 256
        invariant
            v@.len() <= k <= 256,
            r@ == v@ + zeros(k - v@.len()),
        decreases 256 - k,
    {
        r.push(0);
        k = k + 1;
        assert(r@ =~= v@ + zeros(k - v@.len()));
    }
    assert(r@ == dh_auth_key_spec(v@));
    r
}

/// RSA decryption of the client's encrypted data with the server's private
/// exponent and modulus, all big-endian.
pub fn rsa_decrypt(encrypted: &[u8], exponent: &[u8], modulus: &[u8]) -> (r: Vec<u8>)
    requires
        be_uint(modulus@) > 1,
    ensures
        be_uint(r@) == pow(be_uint(encrypted@) as int, be_uint(exponent@)) % (be_uint(modulus@) as int),
        minimal_be(r@),
{
    modpow_be(encrypted, exponent, modulus)
}

/// The encrypted answer of `req_DH_params`: the padded hash and inner data,
/// encrypted with the temporary key and vector.
pub fn encrypt_answer(hash: &[u8], inner: &[u8], key: &[u8], iv: &[u8]) -> (r: Vec<u8>)
    requires
        key@.len() == 32,
        iv@.len() == 32,
    ensures
        r@ == aes_ige_encrypt(padded_answer_spec(hash@, inner@), key@, iv@),
        r@.len() == padded_answer_spec(hash@, inner@).len(),
        r@.len() % 16 == 0,
{
    let mut out = padded_answer(hash, inner);
    proof {
        crate::server::key_exchange::law_padded_answer_blocks(hash@, inner@);
    }
    ige_encrypt(&mut out, key, iv);
    out
}

/// The inner data of `set_client_DH_params`: the encrypted data decrypted
/// with the temporary key and vector, without its first 24 bytes.
pub fn decrypt_client_inner(encrypted: &[u8], key: &[u8], iv: &[u8]) -> (r: Vec<u8>)
    requires
        encrypted@.len() % 16 == 0,
        encrypted@.len() >= 24,
        key@.len() == 32,
        iv@.len() == 32,
    ensures
        r@ == aes_ige_decrypt(encrypted@, key@, iv@).subrange(24, encrypted@.len() as int),
        r@.len() == encrypted@.len() - 24,
{
    let mut buf: Vec<u8> = Vec::new();
    append_all(&mut buf, encrypted);
    ige_decrypt(&mut buf, key, iv);
    crate::encoding::copy_range(&buf, 24, buf.len())
}

/// The inner data of an RSA block with extended padding: the temporary key
/// is the first 32 bytes combined with the SHA-256 of the rest, which is
/// decrypted with it and a zero vector; the result without its trailing
/// 32-byte hash is reversed.
pub open spec fn rsa_pad_inner_spec(decrypted: Seq<u8>, sha: Seq<u8>) -> Seq<u8> {
    let key = temp_key_spec(decrypted.subrange(0, 32), sha);
    let plain = aes_ige_decrypt(decrypted.subrange(32, decrypted.len() as int), key, zeros(32));
    plain.subrange(0, plain.len() - 32).reverse()
}

/// The inner data of an RSA block with extended padding, given the SHA-256
/// of its bytes after the first 32.
pub fn rsa_pad_inner(decrypted: &[u8], sha: &[u8]) -> (r: Vec<u8>)
    requires
        decrypted@.len() >= 64,
        (decrypted@.len() - 32) % 16 == 0,
        sha@.len() == 32,
    ensures
        r@ == rsa_pad_inner_spec(decrypted@, sha@),
        r@.len() == decrypted@.len() - 64,
{
    let v: Vec<u8> = {
        let mut v: Vec<u8> = Vec::new();
        append_all(&mut v, decrypted);
        v
    };
    let head = crate::encoding::copy_range(&v, 0, 32);
    let mut rest = crate::encoding::copy_range(&v, 32, v.len());
    let key = temp_key(head.as_slice(), sha);
    let mut iv: Vec<u8> = Vec::new();
    let mut k: usize = 0;
    while k < 32
        invariant
            k <= 32,
            iv@ == zeros(k as int),
        decreases 32 - k,
    {
        iv.push(0);
        k = k + 1;
        assert(iv@ =~= zeros(k as int));
    }
    ige_decrypt(&mut rest, key.as_slice(), iv.as_slice());
    unpadded_inner_data(rest.as_slice())
}

} // verus!
