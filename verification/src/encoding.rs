//! Little-endian integer encodings shared by the TL buffers.
use vstd::prelude::*;

verus! {

/// `256` raised to the power `n`.
pub open spec fn pow256(n: nat) -> nat
    decreases n,
{
    if n == 0 {
        1
    } else {
        256 * pow256((n - 1) as nat)
    }
}

/// The unsigned value of a little-endian byte sequence.
pub open spec fn le_uint(s: Seq<u8>) -> nat
    decreases s.len(),
{
    if s.len() == 0 {
        0
    } else {
        s[0] as nat + 256 * le_uint(s.drop_first())
    }
}

/// The `n` low bytes of `v`, least significant first.
pub open spec fn le_bytes(v: nat, n: nat) -> Seq<u8>
    decreases n,
{
    if n == 0 {
        Seq::empty()
    } else {
        seq![(v % 256) as u8] + le_bytes(v / 256, (n - 1) as nat)
    }
}

/// The two's complement reading of an `n`-byte unsigned value.
pub open spec fn signed_of(u: int, n: nat) -> int {
    if u >= pow256(n) / 2 {
        u - pow256(n)
    } else {
        u
    }
}

/// The `n`-byte two's complement bit pattern of `v`, read as unsigned.
pub open spec fn unsigned_of(v: int, n: nat) -> nat {
    if v < 0 {
        (v + pow256(n)) as nat
    } else {
        v as nat
    }
}

/// The signed integer that `s` encodes in little-endian two's complement.
pub open spec fn le_int(s: Seq<u8>) -> int {
    signed_of(le_uint(s) as int, s.len())
}

/// The little-endian two's complement encoding of `v` in `n` bytes.
pub open spec fn le_int_bytes(v: int, n: nat) -> Seq<u8> {
    le_bytes(unsigned_of(v, n), n)
}

pub proof fn lemma_pow256_values()
    ensures
        pow256(0) == 1,
        pow256(1) == 0x100,
        pow256(2) == 0x1_0000,
        pow256(3) == 0x100_0000,
        pow256(4) == 0x1_0000_0000,
        pow256(8) == 0x1_0000_0000_0000_0000,
        pow256(16) == 0x1_0000_0000_0000_0000_0000_0000_0000_0000,
{
    reveal_with_fuel(pow256, 17);
}

pub proof fn lemma_pow256_monotone(a: nat, b: nat)
    requires
        a <= b,
    ensures
        pow256(a) <= pow256(b),
        pow256(a) >= 1,
    decreases b,
{
    if a < b {
        lemma_pow256_monotone(a, (b - 1) as nat);
    } else if a > 0 {
        lemma_pow256_monotone((a - 1) as nat, (a - 1) as nat);
    }
}

pub proof fn lemma_le_uint_bound(s: Seq<u8>)
    ensures
        le_uint(s) < pow256(s.len()),
    decreases s.len(),
{
    if s.len() > 0 {
        lemma_le_uint_bound(s.drop_first());
    }
}

/// Peeling the first byte off a window of a sequence.
pub proof fn lemma_le_uint_window(d: Seq<u8>, a: int, b: int)
    requires
        0 <= a < b <= d.len(),
    ensures
        le_uint(d.subrange(a, b)) == d[a] as nat + 256 * le_uint(d.subrange(a + 1, b)),
{
    assert(d.subrange(a, b).drop_first() =~= d.subrange(a + 1, b));
}

pub proof fn lemma_le_bytes_len(v: nat, n: nat)
    ensures
        le_bytes(v, n).len() == n,
    decreases n,
{
    if n > 0 {
        lemma_le_bytes_len(v / 256, (n - 1) as nat);
    }
}

/// Decoding an encoding gives back the value, reduced to `n` bytes.
pub proof fn lemma_le_roundtrip(v: nat, n: nat)
    requires
        v < pow256(n),
    ensures
        le_uint(le_bytes(v, n)) == v,
        le_bytes(v, n).len() == n,
    decreases n,
{
    lemma_le_bytes_len(v, n);
    if n > 0 {
        let rest = le_bytes(v / 256, (n - 1) as nat);
        assert(v / 256 < pow256((n - 1) as nat));
        lemma_le_roundtrip(v / 256, (n - 1) as nat);
        assert((seq![(v % 256) as u8] + rest).drop_first() =~= rest);
    }
}

/// The bytes of an encoding depend only on the value modulo `256^n`.
pub proof fn lemma_le_bytes_mod(v: nat, n: nat, k: nat)
    ensures
        le_bytes(v + k * pow256(n), n) == le_bytes(v, n),
    decreases n,
{
    if n > 0 {
        let m = (n - 1) as nat;
        assert(k * pow256(n) == (k * pow256(m)) * 256) by (nonlinear_arith)
            requires
                pow256(n) == 256 * pow256(m),
        ;
        let w = v + k * pow256(n);
        assert(w % 256 == v % 256 && w / 256 == v / 256 + k * pow256(m)) by (nonlinear_arith)
            requires
                w == v + (k * pow256(m)) * 256,
        ;
        lemma_le_bytes_mod(v / 256, m, k);
    }
}

/// Encoding then decoding a signed value that fits gives it back.
pub proof fn lemma_le_int_roundtrip(v: int, n: nat)
    requires
        n > 0,
        -(pow256(n) / 2) <= v < pow256(n) / 2,
    ensures
        le_int(le_int_bytes(v, n)) == v,
        le_int_bytes(v, n).len() == n,
{
    assert(pow256(n) == 256 * pow256((n - 1) as nat));
    lemma_pow256_monotone(0, (n - 1) as nat);
    lemma_le_roundtrip(unsigned_of(v, n), n);
}

/// A signed value read from `n > 0` bytes lies in the `n`-byte range.
pub proof fn lemma_le_int_range(s: Seq<u8>)
    requires
        s.len() > 0,
    ensures
        -(pow256(s.len()) / 2) <= le_int(s) < pow256(s.len()) / 2,
{
    lemma_le_uint_bound(s);
    assert(pow256(s.len()) == 256 * pow256((s.len() - 1) as nat));
}

/// Reads the little-endian value of `n <= 16` bytes starting at `start`.
pub fn read_le(data: &Vec<u8>, start: usize, n: usize) -> (v: u128)
    requires
        n <= 16,
        start + n <= data.len(),
    ensures
        v == le_uint(data@.subrange(start as int, start + n)),
{
    let mut acc: u128 = 0;
    let mut i: usize = n;
    proof {
        lemma_pow256_values();
    }
    while i > 0
        invariant
            n <= 16,
            start + n <= data.len(),
            0 <= i <= n,
            acc == le_uint(data@.subrange(start + i, start + n)),
            pow256(16) == 0x1_0000_0000_0000_0000_0000_0000_0000_0000,
        decreases i,
    {
        proof {
            lemma_le_uint_bound(data@.subrange(start + i, start + n));
            lemma_pow256_monotone((n - i + 1) as nat, 16);
            lemma_le_uint_window(data@, start + i - 1, start + n);
        }
        let b = data[start + i - 1];
        acc = acc * 256 + b as u128;
        i = i - 1;
    }
    acc
}

/// The `n` low bytes of `v`, least significant first.
pub fn write_le(v: u128, n: usize) -> (out: Vec<u8>)
    requires
        n <= 16,
    ensures
        out@ == le_bytes(v as nat, n as nat),
{
    let mut out: Vec<u8> = Vec::new();
    let mut cur: u128 = v;
    let mut i: usize = 0;
    while i < n
        invariant
            i <= n,
            out@ + le_bytes(cur as nat, (n - i) as nat) == le_bytes(v as nat, n as nat),
        decreases n - i,
    {
        let ghost rest = le_bytes(cur as nat / 256, (n - i - 1) as nat);
        assert(le_bytes(cur as nat, (n - i) as nat) == seq![(cur % 256) as u8] + rest);
        let b = (cur % 256) as u8;
        out.push(b);
        cur = cur / 256;
        assert(out@ + rest =~= (out@.drop_last()) + (seq![b] + rest));
        i = i + 1;
    }
    assert(out@ + le_bytes(cur as nat, 0) =~= out@);
    out
}

/// A copy of `data[start..end]`.
pub fn copy_range(data: &Vec<u8>, start: usize, end: usize) -> (out: Vec<u8>)
    requires
        start <= end <= data@.len(),
    ensures
        out@ == data@.subrange(start as int, end as int),
{
    let mut out: Vec<u8> = Vec::new();
    let mut i: usize = start;
    while i < end
        invariant
            start <= i <= end <= data@.len(),
            out@ == data@.subrange(start as int, i as int),
        decreases end - i,
    {
        out.push(data[i]);
        i = i + 1;
        assert(out@ =~= data@.subrange(start as int, i as int));
    }
    out
}

/// Appends all of `src` to `dst`.
pub fn append_all(dst: &mut Vec<u8>, src: &[u8])
    ensures
        final(dst)@ == old(dst)@ + src@,
{
    let mut i: usize = 0;
    while i < src.len()
        invariant
            i <= src@.len(),
            dst@ == old(dst)@ + src@.subrange(0, i as int),
        decreases src@.len() - i,
    {
        dst.push(src[i]);
        i = i + 1;
        assert(dst@ =~= old(dst)@ + src@.subrange(0, i as int));
    }
    assert(src@.subrange(0, i as int) =~= src@);
}

/// Half of `256^n`, for `1 <= n <= 16`.
pub fn pow2_half(n: usize) -> (h: u128)
    requires
        1 <= n <= 16,
    ensures
        h == pow256(n as nat) / 2,
        h >= 1,
{
    let mut h: u128 = 128;
    let mut i: usize = 1;
    proof {
        lemma_pow256_values();
        lemma_pow256_monotone(1, 16);
    }
    while i < n
        invariant
            1 <= i <= n <= 16,
            h == pow256(i as nat) / 2,
            h >= 1,
            pow256(i as nat) <= pow256(16),
            pow256(16) == 0x1_0000_0000_0000_0000_0000_0000_0000_0000,
        decreases n - i,
    {
        proof {
            lemma_pow256_monotone((i + 1) as nat, 16);
            assert(pow256((i + 1) as nat) == 256 * pow256(i as nat));
        }
        h = h * 256;
        i = i + 1;
    }
    h
}

} // verus!
