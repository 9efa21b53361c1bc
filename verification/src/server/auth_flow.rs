//! The server's state during the authorization key exchange, and the steps
//! that fill it in.
use vstd::prelude::*;
use crate::encoding::{le_uint, pow256, lemma_pow256_monotone};
use crate::buffer_model::zeros;
use crate::server::key_exchange::{
    be_uint, pq_bytes, pq_bytes_spec, tmp_aes_key, tmp_aes_key_spec, tmp_aes_iv, tmp_aes_iv_spec,
};
use crate::server::key_math::{dh_public_value, dh_public_spec, dh_auth_key, dh_auth_key_spec,
    dh_secret, minimal_be, encrypt_answer, decrypt_client_inner, aes_ige_encrypt, aes_ige_decrypt,
    nonce_key_data, tmp_aes_from_nonces};
use crate::encoding::le_int_bytes;
use crate::server::key_exchange::{padded_answer_spec, auth_key_id_from_hash, auth_key_aux_hash,
    new_nonce_hash_input};
use crate::encoding::le_int;

verus! {

/// The 2048-bit safe prime of the Diffie-Hellman exchange, big-endian.
pub const CURRENT_PRIME: [u8; 256] = [
    0xc7, 0x1c, 0xae, 0xb9, 0xc6, 0xb1, 0xc9, 0x04, 0x8e, 0x6c, 0x52, 0x2f, 0x70, 0xf1, 0x3f, 0x73,
    0x98, 0x0d, 0x40, 0x23, 0x8e, 0x3e, 0x21, 0xc1, 0x49, 0x34, 0xd0, 0x37, 0x56, 0x3d, 0x93, 0x0f,
    0x48, 0x19, 0x8a, 0x0a, 0xa7, 0xc1, 0x40, 0x58, 0x22, 0x94, 0x93, 0xd2, 0x25, 0x30, 0xf4, 0xdb,
    0xfa, 0x33, 0x6f, 0x6e, 0x0a, 0xc9, 0x25, 0x13, 0x95, 0x43, 0xae, 0xd4, 0x4c, 0xce, 0x7c, 0x37,
    0x20, 0xfd, 0x51, 0xf6, 0x94, 0x58, 0x70, 0x5a, 0xc6, 0x8c, 0xd4, 0xfe, 0x6b, 0x6b, 0x13, 0xab,
    0xdc, 0x97, 0x46, 0x51, 0x29, 0x69, 0x32, 0x84, 0x54, 0xf1, 0x8f, 0xaf, 0x8c, 0x59, 0x5f, 0x64,
    0x24, 0x77, 0xfe, 0x96, 0xbb, 0x2a, 0x94, 0x1d, 0x5b, 0xcd, 0x1d, 0x4a, 0xc8, 0xcc, 0x49, 0x88,
    0x07, 0x08, 0xfa, 0x9b, 0x37, 0x8e, 0x3c, 0x4f, 0x3a, 0x90, 0x60, 0xbe, 0xe6, 0x7c, 0xf9, 0xa4,
    0xa4, 0xa6, 0x95, 0x81, 0x10, 0x51, 0x90, 0x7e, 0x16, 0x27, 0x53, 0xb5, 0x6b, 0x0f, 0x6b, 0x41,
    0x0d, 0xba, 0x74, 0xd8, 0xa8, 0x4b, 0x2a, 0x14, 0xb3, 0x14, 0x4e, 0x0e, 0xf1, 0x28, 0x47, 0x54,
    0xfd, 0x17, 0xed, 0x95, 0x0d, 0x59, 0x65, 0xb4, 0xb9, 0xdd, 0x46, 0x58, 0x2d, 0xb1, 0x17, 0x8d,
    0x16, 0x9c, 0x6b, 0xc4, 0x65, 0xb0, 0xd6, 0xff, 0x9c, 0xa3, 0x92, 0x8f, 0xef, 0x5b, 0x9a, 0xe4,
    0xe4, 0x18, 0xfc, 0x15, 0xe8, 0x3e, 0xbe, 0xa0, 0xf8, 0x7f, 0xa9, 0xff, 0x5e, 0xed, 0x70, 0x05,
    0x0d, 0xed, 0x28, 0x49, 0xf4, 0x7b, 0xf9, 0x59, 0xd9, 0x56, 0x85, 0x0c, 0xe9, 0x29, 0x85, 0x1f,
    0x0d, 0x81, 0x15, 0xf6, 0x35, 0xb1, 0x05, 0xee, 0x2e, 0x4e, 0x15, 0xd0, 0x4b, 0x24, 0x54, 0xbf,
    0x6f, 0x4f, 0xad, 0xf0, 0x34, 0xb1, 0x04, 0x03, 0x11, 0x9c, 0xd8, 0xe3, 0xb9, 0x2f, 0xcc, 0x5b,
];

/// The factors of the `pq` the server hands out.
pub open spec fn factor_p() -> u32 {
    1305305213
}

pub open spec fn factor_q() -> u32 {
    1774703071
}

/// The server's state of one key exchange.  The secret `a` is kept as
/// little-endian bytes and `g_a` as big-endian bytes.
#[derive(Debug)]
pub struct AuthKeyFlow {
    pub nonce: i128,
    pub server_nonce: i128,
    pub new_nonce: Vec<u8>,
    pub tmp_aes_key: Vec<u8>,
    pub tmp_aes_iv: Vec<u8>,
    pub p: u32,
    pub q: u32,
    pub a: Vec<u8>,
    pub g: i32,
    pub g_a: Vec<u8>,
}

/// `n` zero bytes.
fn zero_bytes(n: usize) -> (r: Vec<u8>)
    ensures
        r@ == zeros(n as int),
{
    let mut r: Vec<u8> = Vec::new();
    let mut k: usize = 0;
    while k < n
        invariant
            k <= n,
            r@ == zeros(k as int),
        decreases n - k,
    {
        r.push(0);
        k = k + 1;
        assert(r@ =~= zeros(k as int));
    }
    r
}

impl AuthKeyFlow {
    /// An exchange that has not started: zero nonces and keys, generator 3.
    pub fn new() -> (f: AuthKeyFlow)
        ensures
            f.nonce == 0 && f.server_nonce == 0 && f.p == 0 && f.q == 0 && f.g == 3,
            f.new_nonce@ == zeros(32) && f.tmp_aes_key@ == zeros(32) && f.tmp_aes_iv@ == zeros(32),
            f.a@.len() == 0 && f.g_a@.len() == 0,
    {
        AuthKeyFlow {
            nonce: 0,
            server_nonce: 0,
            new_nonce: zero_bytes(32),
            tmp_aes_key: zero_bytes(32),
            tmp_aes_iv: zero_bytes(32),
            p: 0,
            q: 0,
            a: Vec::new(),
            g: 3,
            g_a: Vec::new(),
        }
    }

    /// `req_pq_multi`: remembers the client's nonce and the server's, fixes
    /// the factors, and returns the `pq` to send.
    pub fn answer_req_pq(&mut self, nonce: i128, server_nonce: i128) -> (pq: Vec<u8>)
        ensures
            final(self).nonce == nonce,
            final(self).server_nonce == server_nonce,
            final(self).p == factor_p(),
            final(self).q == factor_q(),
            final(self).new_nonce == old(self).new_nonce,
            final(self).a == old(self).a,
            final(self).g == old(self).g,
            final(self).g_a == old(self).g_a,
            final(self).tmp_aes_key == old(self).tmp_aes_key,
            final(self).tmp_aes_iv == old(self).tmp_aes_iv,
            pq@ == pq_bytes_spec(factor_p(), factor_q()),
    {
        self.nonce = nonce;
        self.server_nonce = server_nonce;
        self.p = 1305305213;
        self.q = 1774703071;
        pq_bytes(self.p, self.q)
    }

    /// Sets the temporary AES key and vector from the hashes of the new nonce
    /// with the server nonce (`h_ns`), of the server nonce with the new nonce
    /// (`h_sn`) and of the new nonce twice (`h_nn`).
    pub fn set_tmp_aes(&mut self, h_ns: &[u8], h_sn: &[u8], h_nn: &[u8])
        requires
            h_ns@.len() == 20,
            h_sn@.len() == 20,
            h_nn@.len() == 20,
            old(self).new_nonce@.len() >= 4,
        ensures
            final(self).tmp_aes_key@ == tmp_aes_key_spec(h_ns@, h_sn@),
            final(self).tmp_aes_iv@ == tmp_aes_iv_spec(h_sn@, h_nn@, old(self).new_nonce@),
            final(self).nonce == old(self).nonce,
            final(self).server_nonce == old(self).server_nonce,
            final(self).new_nonce == old(self).new_nonce,
            final(self).a == old(self).a,
            final(self).g == old(self).g,
            final(self).g_a == old(self).g_a,
            final(self).p == old(self).p,
            final(self).q == old(self).q,
    {
        self.tmp_aes_key = tmp_aes_key(h_ns, h_sn);
        self.tmp_aes_iv = tmp_aes_iv(h_sn, h_nn, self.new_nonce.as_slice());
    }

    /// Chooses the server's secret (256 bytes of 123) and computes `g_a`
    /// modulo the exchange's prime.
    pub fn choose_secret(&mut self)
        requires
            old(self).g >= 0,
        ensures
            final(self).a@ == dh_secret(),
            be_uint(final(self).g_a@) == dh_public_spec(old(self).g as int, dh_secret(), CURRENT_PRIME@),
            minimal_be(final(self).g_a@),
            final(self).g == old(self).g,
            final(self).nonce == old(self).nonce,
            final(self).server_nonce == old(self).server_nonce,
            final(self).new_nonce == old(self).new_nonce,
            final(self).tmp_aes_key == old(self).tmp_aes_key,
            final(self).tmp_aes_iv == old(self).tmp_aes_iv,
            final(self).p == old(self).p,
            final(self).q == old(self).q,
    {
        let mut a: Vec<u8> = Vec::new();
        let mut k: usize = 0;
        while k < 256
            invariant
                k <= 256,
                a@ == Seq::new(k as nat, |i: int| 123u8),
            decreases 256 - k,
        {
            a.push(123);
            k = k + 1;
            assert(a@ =~= Seq::new(k as nat, |i: int| 123u8));
        }
        let prime = CURRENT_PRIME;
        proof {
            lemma_current_prime_large();
        }
        self.g_a = dh_public_value(self.g, a.as_slice(), prime.as_slice());
        self.a = a;
    }

    /// Derives the temporary AES key and vector from the exchange's server
    /// nonce and new nonce, as grammers-crypto does.
    pub fn derive_tmp_aes(&mut self)
        requires
            old(self).new_nonce@.len() == 32,
        ensures
            (final(self).tmp_aes_key@, final(self).tmp_aes_iv@) == nonce_key_data(
                le_int_bytes(old(self).server_nonce as int, 16),
                old(self).new_nonce@,
            ),
            final(self).tmp_aes_key@.len() == 32,
            final(self).tmp_aes_iv@.len() == 32,
            *final(self) == (AuthKeyFlow {
                tmp_aes_key: final(self).tmp_aes_key,
                tmp_aes_iv: final(self).tmp_aes_iv,
                ..*old(self)
            }),
    {
        let (key, iv) = tmp_aes_from_nonces(self.server_nonce, self.new_nonce.as_slice());
        self.tmp_aes_key = key;
        self.tmp_aes_iv = iv;
    }

    /// `req_DH_params`, once the inner data is taken: the temporary key and
    /// vector from the nonces, then the server's secret and its public
    /// value `g_a`; what is left is to serialize `server_DH_inner_data` and
    /// encrypt it with `dh_answer`.
    pub fn prepare_dh_answer(&mut self)
        requires
            old(self).new_nonce@.len() == 32,
            old(self).g >= 0,
        ensures
            (final(self).tmp_aes_key@, final(self).tmp_aes_iv@) == nonce_key_data(
                le_int_bytes(old(self).server_nonce as int, 16),
                old(self).new_nonce@,
            ),
            final(self).tmp_aes_key@.len() == 32,
            final(self).tmp_aes_iv@.len() == 32,
            final(self).a@ == dh_secret(),
            be_uint(final(self).g_a@) == dh_public_spec(old(self).g as int, dh_secret(), CURRENT_PRIME@),
            minimal_be(final(self).g_a@),
            *final(self) == (AuthKeyFlow {
                tmp_aes_key: final(self).tmp_aes_key,
                tmp_aes_iv: final(self).tmp_aes_iv,
                a: final(self).a,
                g_a: final(self).g_a,
                ..*old(self)
            }),
    {
        self.derive_tmp_aes();
        self.choose_secret();
    }

    /// The authorization key from the client's public value `g_b`.
    pub fn auth_key(&self, g_b: &[u8]) -> (r: Vec<u8>)
        ensures
            r@.len() == 256,
            exists|v: Seq<u8>|
                r@ == dh_auth_key_spec(v) && minimal_be(v) && be_uint(v) == vstd::arithmetic::power::pow(
                    be_uint(g_b@) as int,
                    le_uint(self.a@),
                ) % (be_uint(CURRENT_PRIME@) as int),
    {
        let prime = CURRENT_PRIME;
        proof {
            lemma_current_prime_large();
        }
        dh_auth_key(g_b, self.a.as_slice(), prime.as_slice())
    }
}

/// The fields of a decoded `p_q_inner_data` block that the exchange keeps.
#[derive(Debug)]
pub struct InnerFields {
    pub nonce: i128,
    pub server_nonce: i128,
    pub new_nonce: Vec<u8>,
}

/// What follows the first reading of an RSA-decrypted block: its inner data
/// was accepted, or the block carries extended padding and the bytes after
/// its first 32 are to be hashed and unpadded.
#[derive(Debug)]
pub enum InnerStep {
    Accepted,
    Unpad(Vec<u8>),
}

/// The part of an RSA-decrypted block read first as inner data: all after
/// its first 20 bytes (the SHA-1 the client put in front).
pub fn rsa_inner_bytes(decrypted: &[u8]) -> (r: Vec<u8>)
    requires
        decrypted@.len() >= 20,
    ensures
        r@ == decrypted@.subrange(20, decrypted@.len() as int),
{
    let mut v: Vec<u8> = Vec::new();
    crate::encoding::append_all(&mut v, decrypted);
    crate::encoding::copy_range(&v, 20, v.len())
}

/// The result of the key exchange's reply to `set_client_DH_params`, before
/// the last hash: the key's identifier and what the new nonce's hash is
/// taken of.
#[derive(Debug)]
pub struct DhGen {
    pub auth_key_id: i64,
    pub nonce_hash_input: Vec<u8>,
}

impl AuthKeyFlow {
    /// Keeps the nonces and the new nonce of accepted inner data.
    fn accept(&mut self, f: InnerFields)
        requires
            f.new_nonce@.len() == 32,
        ensures
            *final(self) == (AuthKeyFlow {
                nonce: f.nonce,
                server_nonce: f.server_nonce,
                new_nonce: f.new_nonce,
                ..*old(self)
            }),
    {
        self.nonce = f.nonce;
        self.server_nonce = f.server_nonce;
        self.new_nonce = f.new_nonce;
    }

    /// `req_DH_params`, after RSA decryption: where the block decoded as
    /// inner data (`parsed`), the exchange takes its nonces; where it did
    /// not, the block has extended padding, and the bytes after its first
    /// 32 are handed out to be hashed, the state unchanged.
    pub fn on_plain_inner(&mut self, decrypted: &[u8], parsed: Option<InnerFields>) -> (step: InnerStep)
        requires
            parsed matches Some(f) ==> f.new_nonce@.len() == 32,
            parsed is None ==> decrypted@.len() >= 32,
        ensures
            match parsed {
                Some(f) => step is Accepted && *final(self) == (AuthKeyFlow {
                    nonce: f.nonce,
                    server_nonce: f.server_nonce,
                    new_nonce: f.new_nonce,
                    ..*old(self)
                }),
                None => step matches InnerStep::Unpad(rest) && rest@ == decrypted@.subrange(
                    32,
                    decrypted@.len() as int,
                ) && *final(self) == *old(self),
            },
    {
        match parsed {
            Some(f) => {
                self.accept(f);
                InnerStep::Accepted
            },
            None => {
                let mut v: Vec<u8> = Vec::new();
                crate::encoding::append_all(&mut v, decrypted);
                InnerStep::Unpad(crate::encoding::copy_range(&v, 32, v.len()))
            },
        }
    }

    /// `req_DH_params`, after the extended padding was removed: the unpadded
    /// block must decode as inner data, whose nonces the exchange takes;
    /// otherwise the decoder's error is the answer and the state unchanged.
    pub fn on_padded_inner<E>(&mut self, parsed: Result<InnerFields, E>) -> (r: Result<(), E>)
        requires
            parsed matches Ok(f) ==> f.new_nonce@.len() == 32,
        ensures
            match parsed {
                Ok(f) => r is Ok && *final(self) == (AuthKeyFlow {
                    nonce: f.nonce,
                    server_nonce: f.server_nonce,
                    new_nonce: f.new_nonce,
                    ..*old(self)
                }),
                Err(e) => r == Err::<(), E>(e) && *final(self) == *old(self),
            },
    {
        match parsed {
            Ok(f) => {
                self.accept(f);
                Ok(())
            },
            Err(e) => Err(e),
        }
    }

    /// The encrypted answer of `req_DH_params`: the SHA-1 `inner_sha` of
    /// the serialized `server_DH_inner_data` and the data itself, padded and
    /// encrypted with the exchange's temporary key and vector.
    pub fn dh_answer(&self, inner_sha: &[u8], inner: &[u8]) -> (r: Vec<u8>)
        requires
            self.tmp_aes_key@.len() == 32,
            self.tmp_aes_iv@.len() == 32,
        ensures
            r@ == aes_ige_encrypt(padded_answer_spec(inner_sha@, inner@), self.tmp_aes_key@, self.tmp_aes_iv@),
            r@.len() == padded_answer_spec(inner_sha@, inner@).len(),
            r@.len() % 16 == 0,
    {
        encrypt_answer(inner_sha, inner, self.tmp_aes_key.as_slice(), self.tmp_aes_iv.as_slice())
    }

    /// `set_client_DH_params`: the client's inner data, decrypted with the
    /// exchange's temporary key and vector, without its 24-byte head.
    pub fn client_inner(&self, encrypted: &[u8]) -> (r: Vec<u8>)
        requires
            encrypted@.len() % 16 == 0,
            encrypted@.len() >= 24,
            self.tmp_aes_key@.len() == 32,
            self.tmp_aes_iv@.len() == 32,
        ensures
            r@ == aes_ige_decrypt(encrypted@, self.tmp_aes_key@, self.tmp_aes_iv@).subrange(
                24,
                encrypted@.len() as int,
            ),
            r@.len() == encrypted@.len() - 24,
    {
        decrypt_client_inner(encrypted, self.tmp_aes_key.as_slice(), self.tmp_aes_iv.as_slice())
    }

    /// `set_client_DH_params`, given the SHA-1 of the new authorization
    /// key: the key's identifier is its last eight bytes, and the new
    /// nonce's hash is taken of the new nonce, a 1 and its first eight bytes.
    pub fn dh_gen(&self, auth_key_sha: &[u8]) -> (g: DhGen)
        requires
            auth_key_sha@.len() == 20,
        ensures
            g.auth_key_id == le_int(auth_key_sha@.subrange(12, 20)),
            g.nonce_hash_input@ == self.new_nonce@ + seq![1u8] + auth_key_sha@.subrange(0, 8),
    {
        let id = auth_key_id_from_hash(auth_key_sha);
        let aux = auth_key_aux_hash(auth_key_sha);
        let input = new_nonce_hash_input(self.new_nonce.as_slice(), aux.as_slice());
        DhGen { auth_key_id: id, nonce_hash_input: input }
    }
}

/// The exchange's prime is a 256-byte number above one.
proof fn lemma_current_prime_large()
    ensures
        CURRENT_PRIME@.len() == 256,
        be_uint(CURRENT_PRIME@) > 1,
{
    let s = CURRENT_PRIME@;
    assert(s[0] == 0xc7u8);
    let r = s.reverse();
    crate::server::key_math::lemma_le_uint_top(r);
    assert(r[r.len() - 1] == s[0]);
    crate::encoding::lemma_pow256_values();
    lemma_pow256_monotone(1, 255);
    assert(pow256(255) * 0xc7 >= 0x100) by (nonlinear_arith)
        requires
            pow256(255) >= 0x100,
    ;
}

} // verus!
