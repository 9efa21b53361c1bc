//! The obfuscated abridged transport: after the client's 64-byte header,
//! every byte from the client is deciphered, and every byte to it enciphered,
//! with AES-256 in counter mode (32-bit big-endian counter), one key stream
//! per direction; the header itself uses up the first 64 bytes of the
//! client's stream.
use vstd::prelude::*;
use aes::cipher::{KeyIvInit, StreamCipher, StreamCipherSeek};
use crate::server::transport::{ObfuscationKeys, obfuscation_keys, obfuscation_keys_spec,
    law_obfuscation_keys_mirror};

verus! {

/// The `len` bytes of the AES-256-CTR key stream of `key` and `iv` that
/// start `offset` bytes into it.
pub uninterp spec fn ctr_keystream(key: Seq<u8>, iv: Seq<u8>, offset: int, len: int) -> Seq<u8>;

/// `a` combined byte by byte with `b` by exclusive or.
pub open spec fn xor_bytes(a: Seq<u8>, b: Seq<u8>) -> Seq<u8> {
    Seq::new(a.len(), |i: int| a[i] ^ b[i])
}

/// How far into a key stream a connection may go: the 32-bit block counter
/// of the cipher ends the stream after about 2^32 blocks of 16 bytes; this
/// bound stays a few blocks short of that end.
pub const KEYSTREAM_LIMIT: u64 = 0xF_FFFF_FF00;

/// ctr's `Ctr32BE<Aes256>` made from `key` and `iv` (`KeyIvInit::new_from_slices`,
/// which accepts exactly a 32-byte key and a 16-byte vector), moved `offset`
/// bytes into its key stream (`StreamCipherSeek::seek`), applied to `data`
/// (`StreamCipher::apply_keystream`, which XORs the key stream into the
/// bytes).  The stream's bytes are named as a function of the key, the
/// vector, the offset and the length; the bound keeps the calls away from
/// the end of the stream, where they panic.
#[verifier::external_body]
fn ctr_apply(key: &[u8], iv: &[u8], offset: u64, data: &mut Vec<u8>)
    requires
        key@.len() == 32,
        iv@.len() == 16,
        offset + old(data)@.len() <= KEYSTREAM_LIMIT,
    ensures
        final(data)@ == xor_bytes(old(data)@, ctr_keystream(key@, iv@, offset as int, old(data)@.len() as int)),
{
    let mut cipher = ctr::Ctr32BE::<aes::Aes256>::new_from_slices(key, iv).unwrap();
    cipher.seek(offset);
    cipher.apply_keystream(data.as_mut_slice());
}

/// The model of an obfuscated connection: the key and vector of each
/// direction and how far into its key stream each direction has gone.
pub struct ObfuscatedView {
    pub incoming_key: Seq<u8>,
    pub incoming_iv: Seq<u8>,
    pub outgoing_key: Seq<u8>,
    pub outgoing_iv: Seq<u8>,
    pub incoming_offset: int,
    pub outgoing_offset: int,
}

/// The cipher state of an obfuscated connection.
pub struct ObfuscatedState {
    keys: ObfuscationKeys,
    incoming_offset: u64,
    outgoing_offset: u64,
}

impl View for ObfuscatedState {
    type V = ObfuscatedView;

    closed spec fn view(&self) -> ObfuscatedView {
        ObfuscatedView {
            incoming_key: self.keys.encrypt_key@,
            incoming_iv: self.keys.encrypt_iv@,
            outgoing_key: self.keys.decrypt_key@,
            outgoing_iv: self.keys.decrypt_iv@,
            incoming_offset: self.incoming_offset as int,
            outgoing_offset: self.outgoing_offset as int,
        }
    }
}

impl ObfuscatedState {
    /// Each key is 32 bytes and each vector 16.
    #[verifier::type_invariant]
    spec fn sized(self) -> bool {
        &&& self.keys.encrypt_key@.len() == 32
        &&& self.keys.encrypt_iv@.len() == 16
        &&& self.keys.decrypt_key@.len() == 32
        &&& self.keys.decrypt_iv@.len() == 16
    }

    /// The connection after the client's 64-byte header `nonce`: the keys
    /// it carries (the client's direction uses bytes 8..40 and 40..56, the
    /// server's the same 48 bytes reversed), with the header having used up
    /// the first 64 bytes of the client's key stream.
    pub fn open_obfuscated(nonce: &[u8]) -> (s: ObfuscatedState)
        requires
            nonce@.len() == 64,
        ensures
            (s@.incoming_key, s@.incoming_iv, s@.outgoing_key, s@.outgoing_iv) == obfuscation_keys_spec(nonce@),
            s@.incoming_offset == 64,
            s@.outgoing_offset == 0,
    {
        let keys = obfuscation_keys(nonce);
        proof {
            law_obfuscation_keys_mirror(nonce@);
        }
        ObfuscatedState { keys, incoming_offset: 64, outgoing_offset: 0 }
    }

    /// How far into its key stream the client's direction has gone.
    pub fn incoming_offset(&self) -> (n: u64)
        ensures
            n == self@.incoming_offset,
    {
        self.incoming_offset
    }

    /// How far into its key stream the server's direction has gone.
    pub fn outgoing_offset(&self) -> (n: u64)
        ensures
            n == self@.outgoing_offset,
    {
        self.outgoing_offset
    }

    /// Deciphers bytes from the client: they are combined with the client's
    /// key stream where it stands, which then moves past them.
    pub fn decrypt_incoming(&mut self, data: &mut Vec<u8>)
        requires
            old(self)@.incoming_offset + old(data)@.len() <= KEYSTREAM_LIMIT,
        ensures
            final(data)@ == xor_bytes(
                old(data)@,
                ctr_keystream(
                    old(self)@.incoming_key,
                    old(self)@.incoming_iv,
                    old(self)@.incoming_offset,
                    old(data)@.len() as int,
                ),
            ),
            final(self)@ == (ObfuscatedView {
                incoming_offset: old(self)@.incoming_offset + old(data)@.len(),
                ..old(self)@
            }),
    {
        proof {
            use_type_invariant(&*self);
        }
        let n = data.len() as u64;
        ctr_apply(self.keys.encrypt_key.as_slice(), self.keys.encrypt_iv.as_slice(), self.incoming_offset, data);
        self.incoming_offset = self.incoming_offset + n;
    }

    /// Enciphers bytes to the client: they are combined with the server's
    /// key stream where it stands, which then moves past them.
    pub fn encrypt_outgoing(&mut self, data: &mut Vec<u8>)
        requires
            old(self)@.outgoing_offset + old(data)@.len() <= KEYSTREAM_LIMIT,
        ensures
            final(data)@ == xor_bytes(
                old(data)@,
                ctr_keystream(
                    old(self)@.outgoing_key,
                    old(self)@.outgoing_iv,
                    old(self)@.outgoing_offset,
                    old(data)@.len() as int,
                ),
            ),
            final(self)@ == (ObfuscatedView {
                outgoing_offset: old(self)@.outgoing_offset + old(data)@.len(),
                ..old(self)@
            }),
    {
        proof {
            use_type_invariant(&*self);
        }
        let n = data.len() as u64;
        ctr_apply(self.keys.decrypt_key.as_slice(), self.keys.decrypt_iv.as_slice(), self.outgoing_offset, data);
        self.outgoing_offset = self.outgoing_offset + n;
    }
}

} // verus!
