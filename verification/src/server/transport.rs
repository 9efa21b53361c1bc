//! The abridged TCP transport: the length header of a frame, its quick-ACK
//! flag, and the keys of the obfuscated variant.
use vstd::prelude::*;
use crate::encoding::{le_uint, le_bytes, pow256, write_le, append_all, copy_range,
    lemma_le_roundtrip, lemma_pow256_values, lemma_le_bytes_len};

verus! {

/// What the first byte of an abridged frame says.
#[derive(Debug, Clone, Copy, PartialEq, Eq, Structural)]
pub enum FrameHeader {
    /// The length (a multiple of four) is in this byte.
    Short { length: usize, quick_ack: bool },
    /// The length follows in three more bytes.
    Extended { quick_ack: bool },
}

/// The header a first byte announces: `0x7f` and `0xff` announce a three-byte
/// length, the high bit asks for a quick ACK, the rest counts words of four bytes.
pub open spec fn frame_header_spec(first: u8) -> FrameHeader {
    if first == 0x7f {
        FrameHeader::Extended { quick_ack: false }
    } else if first == 0xff {
        FrameHeader::Extended { quick_ack: true }
    } else if first >= 0x80 {
        FrameHeader::Short { length: ((first - 0x80) * 4) as usize, quick_ack: true }
    } else {
        FrameHeader::Short { length: (first * 4) as usize, quick_ack: false }
    }
}

/// Reads the first byte of an abridged frame.
pub fn decode_frame_header(first: u8) -> (h: FrameHeader)
    ensures
        h == frame_header_spec(first),
{
    if first == 0x7f {
        FrameHeader::Extended { quick_ack: false }
    } else if first == 0xff {
        FrameHeader::Extended { quick_ack: true }
    } else if first & (1u8 << 7u8) != 0 {
        assert(first & (1u8 << 7u8) != 0 ==> first >= 0x80 && first ^ (1u8 << 7u8) == first - 0x80)
            by (bit_vector);
        FrameHeader::Short { length: ((first ^ (1u8 << 7u8)) as usize) * 4, quick_ack: true }
    } else {
        assert(first & (1u8 << 7u8) == 0 ==> first < 0x80) by (bit_vector);
        FrameHeader::Short { length: (first as usize) * 4, quick_ack: false }
    }
}

/// The first byte of an abridged frame: `0x7f` announces a three-byte length
/// and `0xff` the same with a quick ACK; any other byte holds the length in
/// words of four bytes in its low seven bits, and its high bit asks for a
/// quick ACK.  Setting the high bit of a plain header keeps its length.
pub proof fn law_frame_header_bytes(b: u8)
    ensures
        b == 0x7f ==> frame_header_spec(b) == (FrameHeader::Extended { quick_ack: false }),
        b == 0xff ==> frame_header_spec(b) == (FrameHeader::Extended { quick_ack: true }),
        b < 0x7f ==> frame_header_spec(b) == (FrameHeader::Short { length: (4 * b) as usize, quick_ack: false }),
        0x80 <= b < 0xff ==> frame_header_spec(b) == (FrameHeader::Short {
            length: (4 * (b - 0x80)) as usize,
            quick_ack: true,
        }),
        b < 0x7f ==> frame_header_spec((b + 0x80) as u8) == (FrameHeader::Short {
            length: frame_header_spec(b)->length,
            quick_ack: true,
        }),
        b != 0x7f && b != 0xff ==> (frame_header_spec(b) matches FrameHeader::Short { length, .. } && length
            == 4 * (b % 0x80)),
{
}

/// The length of an extended frame from its three length bytes, least
/// significant first, counting words of four bytes.
pub fn extended_frame_length(bytes: &[u8]) -> (n: usize)
    requires
        bytes@.len() == 3,
    ensures
        n == le_uint(bytes@) * 4,
{
    proof {
        reveal_with_fuel(le_uint, 4);
        assert(bytes@.drop_first().drop_first().drop_first().len() == 0);
    }
    let words: usize = bytes[0] as usize + 256 * (bytes[1] as usize + 256 * bytes[2] as usize);
    words * 4
}

/// The length bytes of a frame holding `len` bytes: one byte of words when
/// there are fewer than `0x7f` words, else `0x7f` and three bytes of words
/// (of the length reduced to 32 bits), least significant first.
pub open spec fn frame_length_bytes(len: nat) -> Seq<u8> {
    if len / 4 >= 0x7f {
        seq![0x7fu8] + le_bytes((len % 0x1_0000_0000) / 4, 3)
    } else {
        seq![(len / 4) as u8]
    }
}

/// The length bytes of a frame holding `len` bytes.
pub fn encode_frame_length(len: usize) -> (r: Vec<u8>)
    ensures
        r@ == frame_length_bytes(len as nat),
{
    if len / 4 >= 0x7f {
        let words: u64 = (len as u64 % 0x1_0000_0000) / 4;
        let mut r: Vec<u8> = Vec::new();
        r.push(0x7f);
        let low = write_le(words as u128, 3);
        append_all(&mut r, low.as_slice());
        r
    } else {
        let mut r: Vec<u8> = Vec::new();
        r.push((len / 4) as u8);
        assert(r@ =~= seq![(len / 4) as u8]);
        r
    }
}

/// A frame: the length bytes of `data`, then `data`.
pub open spec fn frame_spec(data: Seq<u8>) -> Seq<u8> {
    frame_length_bytes(data.len()) + data
}

/// Frames `data` for the abridged transport.
pub fn encode_frame(data: &[u8]) -> (r: Vec<u8>)
    ensures
        r@ == frame_spec(data@),
{
    let mut r = encode_frame_length(data.len());
    append_all(&mut r, data);
    r
}

/// Where a frame's payload starts, how long it is and whether a quick ACK is
/// asked for, as a reader of the frame `f` finds them.
pub open spec fn frame_layout(f: Seq<u8>) -> (int, int, bool) {
    match frame_header_spec(f[0]) {
        FrameHeader::Short { length, quick_ack } => (1, length as int, quick_ack),
        FrameHeader::Extended { quick_ack } => (4, (le_uint(f.subrange(1, 4)) * 4) as int, quick_ack),
    }
}

/// A framed payload is read back: the reader finds no quick ACK and the
/// payload's whole words, for payloads of fewer than `2^24` words.
pub proof fn law_frame_roundtrip(data: Seq<u8>)
    requires
        data.len() < 0x400_0000,
    ensures
        frame_layout(frame_spec(data)).1 == data.len() / 4 * 4,
        !frame_layout(frame_spec(data)).2,
        frame_spec(data).subrange(
            frame_layout(frame_spec(data)).0,
            frame_layout(frame_spec(data)).0 + frame_layout(frame_spec(data)).1,
        ) == data.take((data.len() / 4 * 4) as int),
{
    let f = frame_spec(data);
    let len = data.len() as int;
    if len / 4 >= 0x7f {
        let w = ((len % 0x1_0000_0000) / 4) as nat;
        assert(len % 0x1_0000_0000 == len);
        lemma_pow256_values();
        reveal_with_fuel(pow256, 4);
        assert(w < pow256(3));
        lemma_le_roundtrip(w, 3);
        assert(f.subrange(1, 4) =~= le_bytes(w, 3));
        assert(f[0] == 0x7fu8);
        assert(f.subrange(4, 4 + (w * 4) as int) =~= data.take(len / 4 * 4));
    } else {
        assert(f[0] == (len / 4) as u8);
        assert(f.subrange(1, 1 + len / 4 * 4) =~= data.take(len / 4 * 4));
    }
}


/// How a connection opens: `0xef` announces the plain abridged transport;
/// any other first byte starts the 64-byte header of the obfuscated one.
#[derive(Debug, Clone, Copy, PartialEq, Eq, Structural)]
pub enum TransportKind {
    Abridged,
    Obfuscated,
}

/// The transport a connection's first byte announces.
pub fn transport_kind(first: u8) -> (k: TransportKind)
    ensures
        (k == TransportKind::Abridged) == (first == 0xef),
{
    if first == 0xef {
        TransportKind::Abridged
    } else {
        TransportKind::Obfuscated
    }
}

/// The keys and initial vectors of an obfuscated connection.
#[derive(Debug)]
pub struct ObfuscationKeys {
    pub encrypt_key: Vec<u8>,
    pub encrypt_iv: Vec<u8>,
    pub decrypt_key: Vec<u8>,
    pub decrypt_iv: Vec<u8>,
}

/// The keys read from the 64-byte header `nonce`: bytes 8..40 and 40..56
/// for one direction, and the same 48 bytes reversed for the other.
pub open spec fn obfuscation_keys_spec(nonce: Seq<u8>) -> (Seq<u8>, Seq<u8>, Seq<u8>, Seq<u8>) {
    let reversed = nonce.subrange(8, 56).reverse();
    (nonce.subrange(8, 40), nonce.subrange(40, 56), reversed.subrange(0, 32), reversed.subrange(32, 48))
}

/// The reversal of `s[a..b]`.
fn reversed_range(s: &[u8], a: usize, b: usize) -> (r: Vec<u8>)
    requires
        a <= b <= s@.len(),
    ensures
        r@ == s@.subrange(a as int, b as int).reverse(),
{
    let mut r: Vec<u8> = Vec::new();
    let mut i: usize = b;
    while i > a
        invariant
            a <= i <= b <= s@.len(),
            r@.len() == b - i,
            forall|j: int| 0 <= j < r@.len() ==> r@[j] == s@[b - 1 - j],
        decreases i - a,
    {
        r.push(s[i - 1]);
        i = i - 1;
    }
    assert(r@ =~= s@.subrange(a as int, b as int).reverse());
    r
}

/// The keys of an obfuscated connection, read from its 64-byte header.
pub fn obfuscation_keys(nonce: &[u8]) -> (k: ObfuscationKeys)
    requires
        nonce@.len() == 64,
    ensures
        (k.encrypt_key@, k.encrypt_iv@, k.decrypt_key@, k.decrypt_iv@) == obfuscation_keys_spec(nonce@),
{
    let v = copy_slice(nonce);
    let reversed = reversed_range(nonce, 8, 56);
    ObfuscationKeys {
        encrypt_key: copy_range(&v, 8, 40),
        encrypt_iv: copy_range(&v, 40, 56),
        decrypt_key: copy_range(&reversed, 0, 32),
        decrypt_iv: copy_range(&reversed, 32, 48),
    }
}

/// A copy of a slice.
fn copy_slice(s: &[u8]) -> (r: Vec<u8>)
    ensures
        r@ == s@,
{
    let mut r: Vec<u8> = Vec::new();
    append_all(&mut r, s);
    r
}

/// The two directions of an obfuscated connection use mirrored key
/// material: the decryption key and vector, together, are the encryption key
/// and vector, together, reversed.
pub proof fn law_obfuscation_keys_mirror(nonce: Seq<u8>)
    requires
        nonce.len() == 64,
    ensures
        ({
            let (ek, ei, dk, di) = obfuscation_keys_spec(nonce);
            &&& ek.len() == 32 && ei.len() == 16 && dk.len() == 32 && di.len() == 16
            &&& dk + di == (ek + ei).reverse()
        }),
{
    let (ek, ei, dk, di) = obfuscation_keys_spec(nonce);
    assert(ek + ei =~= nonce.subrange(8, 56));
    assert(dk + di =~= nonce.subrange(8, 56).reverse());
}

/// The length a client-side abridged frame announces in its first byte,
/// counting words of four bytes; the extended form `0x7f` is not read there.
pub fn short_frame_length(first: u8) -> (n: usize)
    requires
        first != 0x7f,
    ensures
        n == first * 4,
{
    (first as usize) * 4
}

/// A client-side frame: one byte holding the number of words of `data`,
/// reduced to a byte, then `data`.
pub open spec fn short_frame_spec(data: Seq<u8>) -> Seq<u8> {
    seq![((data.len() / 4) % 256) as u8] + data
}

/// Frames `data` with a one-byte length.
pub fn encode_short_frame(data: &[u8]) -> (r: Vec<u8>)
    ensures
        r@ == short_frame_spec(data@),
{
    let mut r: Vec<u8> = Vec::new();
    r.push(((data.len() / 4) % 256) as u8);
    append_all(&mut r, data);
    r
}

/// A client-side frame of fewer than `0x7f` words is read back whole.
pub proof fn law_short_frame_roundtrip(data: Seq<u8>)
    requires
        data.len() / 4 < 0x7f,
    ensures
        short_frame_spec(data)[0] != 0x7f,
        short_frame_spec(data)[0] * 4 == data.len() / 4 * 4,
        short_frame_spec(data).subrange(1, (1 + data.len() / 4 * 4) as int) == data.take((data.len() / 4 * 4) as int),
{
    assert(short_frame_spec(data).subrange(1, (1 + data.len() / 4 * 4) as int) =~= data.take(
        (data.len() / 4 * 4) as int,
    ));
}

} // verus!
