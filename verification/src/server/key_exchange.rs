//! The byte-level steps of the MTProto authorization key exchange: the
//! checks of a `req_DH_params` request, the temporary AES key and vector
//! derived from the nonces, the padding of the encrypted answer, and the
//! identifiers derived from the new key's hash.  The hashes themselves are
//! computed by the caller and handed in.
use vstd::prelude::*;
use crate::encoding::{le_int, le_int_bytes, le_uint, pow256, lemma_pow256_values, append_all,
    write_le, lemma_le_int_range, lemma_le_uint_bound};
use crate::buffer_model::zeros;

verus! {

/// The unsigned value of a big-endian byte sequence.
pub open spec fn be_uint(s: Seq<u8>) -> nat {
    le_uint(s.reverse())
}

/// The eight big-endian bytes of `p * q`, as the `pq` field of `resPQ` carries them.
pub open spec fn pq_bytes_spec(p: u32, q: u32) -> Seq<u8> {
    crate::encoding::le_bytes((p * q) as nat, 8).reverse()
}

/// The `pq` field of `resPQ`: the product of the two factors, big-endian.
pub fn pq_bytes(p: u32, q: u32) -> (r: Vec<u8>)
    ensures
        r@ == pq_bytes_spec(p, q),
{
    assert((p as u64) * (q as u64) <= 0xffff_ffff * 0xffff_ffff) by (nonlinear_arith);
    let product: u64 = (p as u64) * (q as u64);
    let le = write_le(product as u128, 8);
    let mut r: Vec<u8> = Vec::new();
    let mut i: usize = 8;
    proof {
        crate::encoding::lemma_le_bytes_len(product as nat, 8);
    }
    while i > 0
        invariant
            i <= 8,
            le@.len() == 8,
            r@.len() == 8 - i,
            forall|j: int| 0 <= j < r@.len() ==> r@[j] == le@[7 - j],
        decreases i,
    {
        r.push(le[i - 1]);
        i = i - 1;
    }
    assert(r@ =~= le@.reverse());
    r
}

/// Why a `req_DH_params` request is refused.
#[derive(Debug, Clone, Copy, PartialEq, Eq, Structural)]
pub enum DhParamsError {
    /// The nonces differ from those of `req_pq_multi`.
    NonceAltered,
    /// The request names another public key.
    UnknownFingerprint,
    /// The factors are not in increasing order.
    FactorizationFailed,
}

impl DhParamsError {
    /// The text of the error.
    pub fn message(&self) -> (s: String)
        ensures
            s@ == match self {
                DhParamsError::NonceAltered => "nonce values altered"@,
                DhParamsError::UnknownFingerprint => "unknown fingerprint"@,
                DhParamsError::FactorizationFailed => "pq factorization failed"@,
            },
    {
        match self {
            DhParamsError::NonceAltered => String::from_str("nonce values altered"),
            DhParamsError::UnknownFingerprint => String::from_str("unknown fingerprint"),
            DhParamsError::FactorizationFailed => String::from_str("pq factorization failed"),
        }
    }
}

/// The value of four big-endian bytes.
fn be_u32(b: &[u8]) -> (v: u64)
    requires
        b@.len() == 4,
    ensures
        v == be_uint(b@),
        v < 0x1_0000_0000,
{
    proof {
        reveal_with_fuel(le_uint, 5);
        let r = b@.reverse();
        assert(r.drop_first().drop_first().drop_first().drop_first().len() == 0);
        assert(r[0] == b@[3] && r[1] == b@[2] && r[2] == b@[1] && r[3] == b@[0]);
        assert(r.drop_first()[0] == b@[2]);
        assert(r.drop_first().drop_first()[0] == b@[1]);
        assert(r.drop_first().drop_first().drop_first()[0] == b@[0]);
    }
    (b[3] as u64) + 256 * ((b[2] as u64) + 256 * ((b[1] as u64) + 256 * (b[0] as u64)))
}

/// The checks of a `req_DH_params` request against the nonces the server
/// handed out and its key's fingerprint, in order: the nonces, the
/// fingerprint, then the factors `p` and `q` (four big-endian bytes each)
/// must not be in decreasing order.
pub fn check_dh_params(
    flow_nonce: i128,
    flow_server_nonce: i128,
    fingerprint: i64,
    nonce: i128,
    server_nonce: i128,
    public_key_fingerprint: i64,
    p: &[u8],
    q: &[u8],
) -> (r: Result<(), DhParamsError>)
    requires
        nonce == flow_nonce && server_nonce == flow_server_nonce && public_key_fingerprint == fingerprint
            ==> p@.len() == 4 && q@.len() == 4,
    ensures
        nonce != flow_nonce || server_nonce != flow_server_nonce ==> r == Err::<(), DhParamsError>(
            DhParamsError::NonceAltered,
        ),
        nonce == flow_nonce && server_nonce == flow_server_nonce && public_key_fingerprint != fingerprint
            ==> r == Err::<(), DhParamsError>(DhParamsError::UnknownFingerprint),
        nonce == flow_nonce && server_nonce == flow_server_nonce && public_key_fingerprint == fingerprint
            ==> r == if be_uint(p@) > be_uint(q@) {
            Err::<(), DhParamsError>(DhParamsError::FactorizationFailed)
        } else {
            Ok::<(), DhParamsError>(())
        },
{
    if nonce != flow_nonce || server_nonce != flow_server_nonce {
        return Err(DhParamsError::NonceAltered);
    }
    if public_key_fingerprint != fingerprint {
        return Err(DhParamsError::UnknownFingerprint);
    }
    let cp = be_u32(p);
    let cq = be_u32(q);
    if cp > cq {
        return Err(DhParamsError::FactorizationFailed);
    }
    Ok(())
}

/// The temporary AES key: all of `n1` and the first twelve bytes of `n2`,
/// where `n1` is the SHA-1 of the new nonce and the server nonce and `n2` that
/// of the server nonce and the new nonce.
pub open spec fn tmp_aes_key_spec(n1: Seq<u8>, n2: Seq<u8>) -> Seq<u8> {
    n1 + n2.subrange(0, 12)
}

/// The temporary AES vector: the last eight bytes of `n1`, all of `n2` and
/// the first four bytes of the new nonce, where `n1` is the SHA-1 of the
/// server nonce and the new nonce and `n2` that of the new nonce twice.
pub open spec fn tmp_aes_iv_spec(n1: Seq<u8>, n2: Seq<u8>, new_nonce: Seq<u8>) -> Seq<u8> {
    n1.subrange(12, 20) + n2 + new_nonce.subrange(0, 4)
}

/// A copy of `s[a..b]`.
fn slice_range(s: &[u8], a: usize, b: usize) -> (r: Vec<u8>)
    requires
        a <= b <= s@.len(),
    ensures
        r@ == s@.subrange(a as int, b as int),
{
    let mut r: Vec<u8> = Vec::new();
    let mut i: usize = a;
    while i < b
        invariant
            a <= i <= b <= s@.len(),
            r@ == s@.subrange(a as int, i as int),
        decreases b - i,
    {
        r.push(s[i]);
        i = i + 1;
        assert(r@ =~= s@.subrange(a as int, i as int));
    }
    r
}

/// The temporary AES key from the two hashes.
pub fn tmp_aes_key(n1: &[u8], n2: &[u8]) -> (r: Vec<u8>)
    requires
        n1@.len() == 20,
        n2@.len() == 20,
    ensures
        r@ == tmp_aes_key_spec(n1@, n2@),
        r@.len() == 32,
{
    let mut r = slice_range(n1, 0, 20);
    let tail = slice_range(n2, 0, 12);
    append_all(&mut r, tail.as_slice());
    assert(n1@.subrange(0, 20) =~= n1@);
    r
}

/// The temporary AES vector from the two hashes and the new nonce.
pub fn tmp_aes_iv(n1: &[u8], n2: &[u8], new_nonce: &[u8]) -> (r: Vec<u8>)
    requires
        n1@.len() == 20,
        n2@.len() == 20,
        new_nonce@.len() >= 4,
    ensures
        r@ == tmp_aes_iv_spec(n1@, n2@, new_nonce@),
        r@.len() == 32,
{
    let mut r = slice_range(n1, 12, 20);
    append_all(&mut r, n2);
    let head = slice_range(new_nonce, 0, 4);
    append_all(&mut r, head.as_slice());
    r
}

/// The key and the vector together hold the whole hash of the server nonce
/// and the new nonce: its first twelve bytes end the key, its last eight
/// start the vector.
pub proof fn law_tmp_aes_split(n1: Seq<u8>, h: Seq<u8>, n2: Seq<u8>, new_nonce: Seq<u8>)
    requires
        n1.len() == 20,
        h.len() == 20,
        n2.len() == 20,
        new_nonce.len() >= 4,
    ensures
        tmp_aes_key_spec(n1, h).subrange(20, 32) + tmp_aes_iv_spec(h, n2, new_nonce).subrange(0, 8) == h,
{
    assert(tmp_aes_key_spec(n1, h).subrange(20, 32) + tmp_aes_iv_spec(h, n2, new_nonce).subrange(0, 8)
        =~= h);
}

/// The plaintext of the encrypted answer: the hash of the inner data, the
/// inner data, and zero bytes up to the next multiple of sixteen (a whole
/// block of them when the length is already a multiple).
pub open spec fn padded_answer_spec(hash: Seq<u8>, inner: Seq<u8>) -> Seq<u8> {
    let out = hash + inner;
    out + zeros(16 - (out.len() % 16) as int)
}

/// The plaintext of the encrypted answer.
pub fn padded_answer(hash: &[u8], inner: &[u8]) -> (r: Vec<u8>)
    ensures
        r@ == padded_answer_spec(hash@, inner@),
{
    let mut out: Vec<u8> = Vec::new();
    append_all(&mut out, hash);
    append_all(&mut out, inner);
    let padding = 16 - (out.len() % 16);
    let mut k: usize = 0;
    let ghost base = out@;
    while k < padding
        invariant
            k <= padding,
            padding == 16 - (base.len() % 16),
            out@ == base + zeros(k as int),
        decreases padding - k,
    {
        out.push(0);
        k = k + 1;
        assert(out@ =~= base + zeros(k as int));
    }
    out
}

/// The padded answer fills whole AES blocks, with one to sixteen bytes of padding.
pub proof fn law_padded_answer_blocks(hash: Seq<u8>, inner: Seq<u8>)
    ensures
        padded_answer_spec(hash, inner).len() % 16 == 0,
        hash.len() + inner.len() < padded_answer_spec(hash, inner).len() <= hash.len() + inner.len() + 16,
        padded_answer_spec(hash, inner).subrange(0, (hash.len() + inner.len()) as int) == hash + inner,
{
    assert(padded_answer_spec(hash, inner).subrange(0, (hash.len() + inner.len()) as int) =~= hash + inner);
}

/// The identifier of an authorization key: the last eight bytes of its
/// SHA-1, little-endian.
pub fn auth_key_id_from_hash(sha: &[u8]) -> (id: i64)
    requires
        sha@.len() == 20,
    ensures
        id == le_int(sha@.subrange(12, 20)),
{
    let tail = slice_range(sha, 12, 20);
    let u = crate::encoding::read_le(&tail, 0, 8);
    proof {
        assert(tail@.subrange(0, 8) =~= tail@);
        lemma_pow256_values();
        reveal_with_fuel(pow256, 9);
        lemma_le_uint_bound(tail@);
    }
    if u >= 0x8000_0000_0000_0000 {
        ((u - 0x8000_0000_0000_0000) as i64) - 0x7fff_ffff_ffff_ffff - 1
    } else {
        u as i64
    }
}

/// The auxiliary hash of an authorization key: the first eight bytes of its SHA-1.
pub fn auth_key_aux_hash(sha: &[u8]) -> (r: Vec<u8>)
    requires
        sha@.len() == 20,
    ensures
        r@ == sha@.subrange(0, 8),
{
    slice_range(sha, 0, 8)
}

/// What is hashed for `new_nonce_hash1`: the new nonce, the byte 1 and the
/// key's auxiliary hash.
pub fn new_nonce_hash_input(new_nonce: &[u8], aux_hash: &[u8]) -> (r: Vec<u8>)
    ensures
        r@ == new_nonce@ + seq![1u8] + aux_hash@,
{
    let mut r: Vec<u8> = Vec::new();
    append_all(&mut r, new_nonce);
    r.push(1);
    append_all(&mut r, aux_hash);
    r
}

/// `new_nonce_hash1`: the last sixteen bytes of the SHA-1 of its input,
/// little-endian.
pub fn new_nonce_hash_from_sha(sha: &[u8]) -> (h: i128)
    requires
        sha@.len() == 20,
    ensures
        h == le_int(sha@.subrange(4, 20)),
{
    let tail = slice_range(sha, 4, 20);
    let u = crate::encoding::read_le(&tail, 0, 16);
    proof {
        assert(tail@.subrange(0, 16) =~= tail@);
        lemma_pow256_values();
        reveal_with_fuel(pow256, 17);
        lemma_le_uint_bound(tail@);
    }
    if u >= 0x8000_0000_0000_0000_0000_0000_0000_0000 {
        ((u - 0x8000_0000_0000_0000_0000_0000_0000_0000) as i128) - 0x7fff_ffff_ffff_ffff_ffff_ffff_ffff_ffff - 1
    } else {
        u as i128
    }
}

/// The bytes of the server nonce, little-endian, as they are hashed.
pub fn nonce_bytes(nonce: i128) -> (r: Vec<u8>)
    ensures
        r@ == le_int_bytes(nonce as int, 16),
{
    proof {
        lemma_pow256_values();
        reveal_with_fuel(pow256, 17);
    }
    let u: u128 = if nonce < 0 {
        ((nonce - i128::MIN) as u128) + 0x8000_0000_0000_0000_0000_0000_0000_0000
    } else {
        nonce as u128
    };
    write_le(u, 16)
}

/// The temporary key of an extended RSA padding: the first 32 decrypted
/// bytes combined by exclusive or with the SHA-256 of the rest.
pub open spec fn temp_key_spec(key_xor: Seq<u8>, sha: Seq<u8>) -> Seq<u8> {
    Seq::new(32, |i: int| key_xor[i] ^ sha[i])
}

/// The temporary key of an extended RSA padding.
pub fn temp_key(key_xor: &[u8], sha: &[u8]) -> (r: Vec<u8>)
    requires
        key_xor@.len() == 32,
        sha@.len() == 32,
    ensures
        r@ == temp_key_spec(key_xor@, sha@),
{
    let mut r: Vec<u8> = Vec::new();
    let mut i: usize = 0;
    while i < 32
        invariant
            i <= 32,
            key_xor@.len() == 32,
            sha@.len() == 32,
            r@.len() == i,
            forall|j: int| 0 <= j < i ==> r@[j] == key_xor@[j] ^ sha@[j],
        decreases 32 - i,
    {
        r.push(key_xor[i] ^ sha[i]);
        i = i + 1;
    }
    assert(r@ =~= temp_key_spec(key_xor@, sha@));
    r
}

/// The inner data of an extended RSA padding: the decrypted bytes without
/// their trailing 32-byte hash, reversed.
pub fn unpadded_inner_data(data_with_hash: &[u8]) -> (r: Vec<u8>)
    requires
        data_with_hash@.len() >= 32,
    ensures
        r@ == data_with_hash@.subrange(0, data_with_hash@.len() - 32).reverse(),
{
    let n = data_with_hash.len() - 32;
    let mut r: Vec<u8> = Vec::new();
    let mut i: usize = n;
    while i > 0
        invariant
            i <= n,
            n == data_with_hash@.len() - 32,
            r@.len() == n - i,
            forall|j: int| 0 <= j < r@.len() ==> r@[j] == data_with_hash@[n - 1 - j],
        decreases i,
    {
        r.push(data_with_hash[i - 1]);
        i = i - 1;
    }
    assert(r@ =~= data_with_hash@.subrange(0, n as int).reverse());
    r
}

} // verus!
