//! The per-connection bookkeeping of the server: message identifiers and
//! sequence numbers, the plaintext envelopes of responses, and the header
//! and session checks of requests.
use vstd::prelude::*;
use crate::encoding::{le_int, le_int_bytes, signed_of, pow256, lemma_pow256_values, append_all,
    read_le, lemma_le_uint_bound};
use crate::buffer_model::{BufferView, written, window, has_room, lemma_written_at_end};
use crate::tl_buffer::{TlBuffer, TlBufferError, Outcome, fixed_read, result_is};

verus! {

/// The message identifier a clock reading proposes: the seconds (reduced to
/// 32 bits) in the high half, the nanoseconds times four in the low half,
/// read as a signed 64-bit value.
#[verifier::opaque]
pub open spec fn msg_id_candidate(secs: u64, nanos: u32) -> int {
    signed_of((secs % 0x1_0000_0000) * 0x1_0000_0000 + nanos * 4, 8)
}

/// The state after a message identifier is issued at a clock reading, and the
/// identifier: the proposal unless it does not pass the last identifier,
/// which is then advanced by four; the identifier issued is one more.
pub open spec fn next_msg_id_spec(last: int, secs: u64, nanos: u32) -> (int, int) {
    let candidate = msg_id_candidate(secs, nanos);
    let id = if last >= candidate {
        last + 4
    } else {
        candidate
    };
    (id, id + 1)
}

/// The identifiers and sequence numbers a connection issues.
pub struct MessageIds {
    last_msg_id: i64,
    seq_no: i32,
}

impl View for MessageIds {
    type V = (int, int);

    /// The last message identifier and the next sequence number.
    closed spec fn view(&self) -> (int, int) {
        (self.last_msg_id as int, self.seq_no as int)
    }
}

impl MessageIds {
    /// The last message identifier is a multiple of four, so that every
    /// identifier issued is one more than a multiple of four.
    #[verifier::type_invariant]
    spec fn aligned(self) -> bool {
        self.last_msg_id % 4 == 0
    }

    /// A connection that has issued nothing.
    pub fn new() -> (r: MessageIds)
        ensures
            r@ == (0int, 0int),
    {
        MessageIds { last_msg_id: 0, seq_no: 0 }
    }

    /// Issues a message identifier at the clock reading `secs` seconds and
    /// `nanos` nanoseconds since the epoch.
    pub fn next_msg_id(&mut self, secs: u64, nanos: u32) -> (id: i64)
        requires
            nanos < 1_000_000_000,
            old(self)@.0 <= i64::MAX - 5,
        ensures
            (final(self)@.0, id as int) == next_msg_id_spec(old(self)@.0, secs, nanos),
            final(self)@.1 == old(self)@.1,
            old(self)@.0 % 4 == 0,
            final(self)@.0 % 4 == 0,
            final(self)@.0 >= old(self)@.0 + 4,
            id == final(self)@.0 + 1,
            id % 4 == 1,
    {
        proof {
            use_type_invariant(&*self);
            reveal(msg_id_candidate);
        }
        let seconds: u64 = secs % 0x1_0000_0000;
        let low: u64 = (nanos as u64) * 4;
        let raw: u64 = seconds * 0x1_0000_0000 + low;
        proof {
            lemma_pow256_values();
            reveal_with_fuel(pow256, 9);
            assert(pow256(8) == 0x1_0000_0000_0000_0000);
        }
        let candidate: i64 = if raw >= 0x8000_0000_0000_0000 {
            ((raw - 0x8000_0000_0000_0000) as i64) - 0x7fff_ffff_ffff_ffff - 1
        } else {
            raw as i64
        };
        assert(raw % 4 == 0) by (nonlinear_arith)
            requires
                raw == seconds * 0x1_0000_0000 + low,
                low == nanos * 4,
        ;
        assert(candidate % 4 == 0);
        let mut msg_id = candidate;
        if self.last_msg_id >= msg_id {
            msg_id = self.last_msg_id + 4;
        }
        self.last_msg_id = msg_id;
        assert(msg_id < i64::MAX) by {
            assert(raw < 0x8000_0000_0000_0000 ==> raw <= 0x7fff_ffff_0000_0000 + 4_000_000_000);
        }
        msg_id + 1
    }

    /// Issues the next sequence number.
    pub fn next_seq_no(&mut self) -> (n: i32)
        requires
            old(self)@.1 < i32::MAX,
        ensures
            n == old(self)@.1,
            final(self)@ == (old(self)@.0, old(self)@.1 + 1),
    {
        proof {
            use_type_invariant(&*self);
        }
        self.seq_no = self.seq_no + 1;
        self.seq_no - 1
    }
}

/// Message identifiers strictly increase from one response to the next,
/// whatever the clock reads, even when it goes back.
pub proof fn law_msg_ids_increase(last: int, secs1: u64, nanos1: u32, secs2: u64, nanos2: u32)
    ensures
        next_msg_id_spec(last, secs1, nanos1).0 > last,
        next_msg_id_spec(next_msg_id_spec(last, secs1, nanos1).0, secs2, nanos2).1
            > next_msg_id_spec(last, secs1, nanos1).1,
{
}

/// Two identifiers issued one after the other by one connection are each one
/// more than a multiple of four, and the second is at least four past the
/// first, whatever the clock reads, even when it stands still or goes back.
pub proof fn law_successive_msg_ids(last: int, secs1: u64, nanos1: u32, secs2: u64, nanos2: u32)
    requires
        last % 4 == 0,
    ensures
        next_msg_id_spec(last, secs1, nanos1).1 % 4 == 1,
        next_msg_id_spec(next_msg_id_spec(last, secs1, nanos1).0, secs2, nanos2).1 % 4 == 1,
        next_msg_id_spec(next_msg_id_spec(last, secs1, nanos1).0, secs2, nanos2).1
            >= next_msg_id_spec(last, secs1, nanos1).1 + 4,
{
    law_msg_id_mod4(last, secs1, nanos1);
    let l1 = next_msg_id_spec(last, secs1, nanos1).0;
    law_msg_id_mod4(l1, secs2, nanos2);
    let c2 = msg_id_candidate(secs2, nanos2);
    lemma_candidate_aligned(secs2, nanos2);
    if l1 < c2 {
        lemma_aligned_gap(l1, c2);
    }
}

/// Two different multiples of four are at least four apart.
proof fn lemma_aligned_gap(a: int, b: int)
    requires
        a % 4 == 0,
        b % 4 == 0,
        a < b,
    ensures
        b >= a + 4,
{
}

/// Every identifier a clock reading proposes is a multiple of four.
proof fn lemma_candidate_aligned(secs: u64, nanos: u32)
    ensures
        msg_id_candidate(secs, nanos) % 4 == 0,
{
    reveal(msg_id_candidate);
    let u = (secs % 0x1_0000_0000) * 0x1_0000_0000 + nanos * 4;
    assert(u % 4 == 0) by (nonlinear_arith)
        requires
            u == (secs % 0x1_0000_0000) * 0x1_0000_0000 + nanos * 4,
    ;
    lemma_pow256_values();
    reveal_with_fuel(pow256, 9);
}

/// Identifiers issued from a state whose last identifier is a multiple of
/// four are one more than a multiple of four, as server messages must be,
/// and the state stays a multiple of four.
pub proof fn law_msg_id_mod4(last: int, secs: u64, nanos: u32)
    requires
        last % 4 == 0,
    ensures
        next_msg_id_spec(last, secs, nanos).0 % 4 == 0,
        next_msg_id_spec(last, secs, nanos).1 % 4 == 1,
{
    lemma_candidate_aligned(secs, nanos);
}

/// The constructor number of a message container.
pub open spec fn msg_container_id() -> int {
    1945237724
}

/// The bytes of a list of serialized objects, one after another.
pub open spec fn concat_bytes(ms: Seq<Seq<u8>>) -> Seq<u8>
    decreases ms.len(),
{
    if ms.len() == 0 {
        Seq::empty()
    } else {
        concat_bytes(ms.drop_last()) + ms.last()
    }
}

/// The views of a list of byte vectors.
pub open spec fn byte_views(ms: Seq<Vec<u8>>) -> Seq<Seq<u8>> {
    ms.map_values(|m: Vec<u8>| m@)
}

/// The body of an encrypted response: several objects go in a container
/// (its number, their count, the objects); a single one goes alone.
pub open spec fn response_body(ms: Seq<Seq<u8>>) -> Seq<u8> {
    if ms.len() > 1 {
        le_int_bytes(msg_container_id(), 4) + le_int_bytes(ms.len() as int, 4) + concat_bytes(ms)
    } else {
        ms[0]
    }
}

/// The plaintext of an encrypted response: a zero salt, the session, the
/// message identifier, the sequence number, the body's length plus eight,
/// and the body.
pub open spec fn encrypted_payload_spec(session_id: int, msg_id: int, seq_no: int, ms: Seq<Seq<u8>>) -> Seq<u8> {
    let body = response_body(ms);
    le_int_bytes(0, 8) + le_int_bytes(session_id, 8) + le_int_bytes(msg_id, 8) + le_int_bytes(seq_no, 4)
        + le_int_bytes(body.len() + 8int, 4) + body
}

/// The plaintext of an unencrypted response: a zero key identifier, the
/// message identifier, the object's length and the object.
pub open spec fn plain_payload_spec(msg_id: int, m: Seq<u8>) -> Seq<u8> {
    le_int_bytes(0, 8) + le_int_bytes(msg_id, 8) + le_int_bytes(m.len() as int, 4) + m
}

/// Appends a 64-bit integer at the end of the buffer.
fn push_long(buf: &mut TlBuffer, v: i64)
    requires
        old(buf)@.position == old(buf)@.data.len(),
        old(buf)@.data.len() + 8 <= isize::MAX,
    ensures
        final(buf)@.data == old(buf)@.data + le_int_bytes(v as int, 8),
        final(buf)@.data.len() == old(buf)@.data.len() + 8,
        final(buf)@.position == final(buf)@.data.len(),
{
    buf.write_long(v);
    proof {
        crate::encoding::lemma_le_bytes_len(crate::encoding::unsigned_of(v as int, 8), 8);
        lemma_written_at_end(old(buf)@.data, le_int_bytes(v as int, 8));
    }
}

/// Appends a 32-bit integer at the end of the buffer.
fn push_int(buf: &mut TlBuffer, v: i32)
    requires
        old(buf)@.position == old(buf)@.data.len(),
        old(buf)@.data.len() + 4 <= isize::MAX,
    ensures
        final(buf)@.data == old(buf)@.data + le_int_bytes(v as int, 4),
        final(buf)@.data.len() == old(buf)@.data.len() + 4,
        final(buf)@.position == final(buf)@.data.len(),
{
    buf.write_int(v);
    proof {
        crate::encoding::lemma_le_bytes_len(crate::encoding::unsigned_of(v as int, 4), 4);
        lemma_written_at_end(old(buf)@.data, le_int_bytes(v as int, 4));
    }
}

/// Appends raw bytes at the end of the buffer.
fn push_raw(buf: &mut TlBuffer, v: &[u8])
    requires
        old(buf)@.position == old(buf)@.data.len(),
        old(buf)@.data.len() + v@.len() <= isize::MAX,
    ensures
        final(buf)@.data == old(buf)@.data + v@,
        final(buf)@.position == final(buf)@.data.len(),
{
    buf.write_raw(v);
    proof {
        lemma_written_at_end(old(buf)@.data, v@);
    }
}

/// The bytes of a buffer, copied out.
fn buffer_bytes(buf: &TlBuffer) -> (r: Vec<u8>)
    ensures
        r@ == buf@.data,
{
    let mut r: Vec<u8> = Vec::new();
    append_all(&mut r, buf.data());
    r
}

/// The length of the concatenation of the first `k` items.
proof fn lemma_concat_bytes_step(ms: Seq<Seq<u8>>, k: int)
    requires
        0 <= k < ms.len(),
    ensures
        concat_bytes(ms.take(k + 1)) == concat_bytes(ms.take(k)) + ms[k],
{
    assert(ms.take(k + 1).drop_last() =~= ms.take(k));
}

/// The body of an encrypted response.
fn response_body_bytes(messages: &Vec<Vec<u8>>) -> (r: Vec<u8>)
    requires
        messages@.len() >= 1,
        messages@.len() <= i32::MAX,
        response_body(byte_views(messages@)).len() + 36 <= isize::MAX,
    ensures
        r@ == response_body(byte_views(messages@)),
{
    let ghost ms = byte_views(messages@);
    if messages.len() > 1 {
        let mut obj = TlBuffer::new(Vec::new());
        push_int(&mut obj, 1945237724);
        push_int(&mut obj, messages.len() as i32);
        let ghost head = obj@.data;
        proof {
            assert forall|j: int| 0 <= j <= messages@.len() implies concat_bytes(ms.take(j)).len()
                <= concat_bytes(ms).len() by {
                lemma_concat_bytes_prefix(ms, j);
            }
        }
        let mut k: usize = 0;
        assert(concat_bytes(ms.take(0)) =~= Seq::<u8>::empty());
        assert(ms.take(messages@.len() as int) =~= ms);
        while k < messages.len()
            invariant
                ms == byte_views(messages@),
                messages@.len() > 1,
                k <= messages@.len(),
                head.len() == 8,
                obj@.data == head + concat_bytes(ms.take(k as int)),
                obj@.position == obj@.data.len(),
                head + concat_bytes(ms) == response_body(ms),
                response_body(ms).len() + 36 <= isize::MAX,
                forall|j: int| 0 <= j <= messages@.len() ==> concat_bytes(ms.take(j)).len() <= concat_bytes(ms).len(),
            decreases messages@.len() - k,
        {
            proof {
                lemma_concat_bytes_step(ms, k as int);
                assert(concat_bytes(ms.take(k + 1)).len() <= concat_bytes(ms).len());
            }
            push_raw(&mut obj, messages[k].as_slice());
            k = k + 1;
        }
        buffer_bytes(&obj)
    } else {
        let mut r: Vec<u8> = Vec::new();
        append_all(&mut r, messages[0].as_slice());
        r
    }
}

/// The lengths of the partial concatenations never pass the whole one's.
proof fn lemma_concat_bytes_prefix(ms: Seq<Seq<u8>>, j: int)
    requires
        0 <= j <= ms.len(),
    ensures
        concat_bytes(ms.take(j)).len() <= concat_bytes(ms).len(),
    decreases ms.len() - j,
{
    if j < ms.len() {
        lemma_concat_bytes_step(ms, j);
        lemma_concat_bytes_prefix(ms, j + 1);
    } else {
        assert(ms.take(j) =~= ms);
    }
}

/// The plaintext of an encrypted response holding the serialized objects
/// `messages`.
pub fn encrypted_payload(session_id: i64, msg_id: i64, seq_no: i32, messages: &Vec<Vec<u8>>) -> (r: Vec<u8>)
    requires
        messages@.len() >= 1,
        messages@.len() <= i32::MAX,
        response_body(byte_views(messages@)).len() + 8 <= i32::MAX,
        response_body(byte_views(messages@)).len() + 36 <= isize::MAX,
    ensures
        r@ == encrypted_payload_spec(
            session_id as int,
            msg_id as int,
            seq_no as int,
            byte_views(messages@),
        ),
{
    proof {
        if messages@.len() > 1 {
            assert(le_int_bytes(msg_container_id(), 4).len() == 4) by {
                crate::encoding::lemma_le_bytes_len(crate::encoding::unsigned_of(msg_container_id(), 4), 4);
            }
            assert(le_int_bytes(messages@.len() as int, 4).len() == 4) by {
                crate::encoding::lemma_le_bytes_len(crate::encoding::unsigned_of(messages@.len() as int, 4), 4);
            }
        }
    }
    let body = response_body_bytes(messages);
    let mut data = TlBuffer::new(Vec::new());
    push_long(&mut data, 0);
    push_long(&mut data, session_id);
    push_long(&mut data, msg_id);
    push_int(&mut data, seq_no);
    push_int(&mut data, body.len() as i32 + 8);
    push_raw(&mut data, body.as_slice());
    let r = buffer_bytes(&data);
    assert(r@ =~= encrypted_payload_spec(session_id as int, msg_id as int, seq_no as int, byte_views(messages@)));
    r
}

/// The plaintext of an unencrypted response holding the serialized object `message`.
pub fn plain_payload(msg_id: i64, message: &Vec<u8>) -> (r: Vec<u8>)
    requires
        message@.len() <= i32::MAX,
        message@.len() + 20 <= isize::MAX,
    ensures
        r@ == plain_payload_spec(msg_id as int, message@),
{
    let mut data = TlBuffer::new(Vec::new());
    push_long(&mut data, 0);
    push_long(&mut data, msg_id);
    push_int(&mut data, message.len() as i32);
    push_raw(&mut data, message.as_slice());
    let r = buffer_bytes(&data);
    assert(r@ =~= plain_payload_spec(msg_id as int, message@));
    r
}


/// The authorization key identifier that starts a frame: its first eight
/// bytes, little-endian.
pub fn frame_auth_key_id(raw: &[u8]) -> (id: i64)
    requires
        raw@.len() >= 8,
    ensures
        id == le_int(raw@.subrange(0, 8)),
{
    let mut v: Vec<u8> = Vec::new();
    let mut i: usize = 0;
    while i < 8
        invariant
            i <= 8,
            raw@.len() >= 8,
            v@ == raw@.subrange(0, i as int),
        decreases 8 - i,
    {
        v.push(raw[i]);
        i = i + 1;
        assert(v@ =~= raw@.subrange(0, i as int));
    }
    let mut buf = TlBuffer::new(v);
    proof {
        crate::encoding::lemma_le_int_range(raw@.subrange(0, 8));
        lemma_pow256_values();
        reveal_with_fuel(pow256, 9);
        assert(window(buf@, 8) =~= raw@.subrange(0, 8));
    }
    match buf.read_long() {
        Ok(id) => id,
        Err(_) => {
            assert(false);
            0
        },
    }
}

/// A frame of a connection that is not encrypted yet names an authorization
/// key that must be looked up when its identifier is not zero.
pub fn needs_key_lookup(encrypted: bool, auth_key_id: i64) -> (r: bool)
    ensures
        r == (!encrypted && auth_key_id != 0),
{
    !encrypted && auth_key_id != 0
}

/// The header of a decrypted request.
#[derive(Debug, Clone, Copy, PartialEq, Eq)]
pub struct MessageHeader {
    pub salt: i64,
    pub session_id: i64,
    pub msg_id: i64,
    pub seq_no: i32,
    pub length: i32,
}

/// The header fields under the cursor of `b`: three 64-bit and two 32-bit
/// little-endian integers.
pub open spec fn header_fields(b: BufferView) -> (int, int, int, int, int) {
    let p = b.position;
    (
        le_int(b.data.subrange(p, p + 8)),
        le_int(b.data.subrange(p + 8, p + 16)),
        le_int(b.data.subrange(p + 16, p + 24)),
        le_int(b.data.subrange(p + 24, p + 28)),
        le_int(b.data.subrange(p + 28, p + 32)),
    )
}

/// Where the cursor stops when the header does not fit: after the last
/// field that fits.
pub open spec fn header_stop(b: BufferView) -> int {
    let p = b.position;
    if !has_room(b, 8) {
        p
    } else if !has_room(b, 16) {
        p + 8
    } else if !has_room(b, 24) {
        p + 16
    } else if !has_room(b, 28) {
        p + 24
    } else {
        p + 28
    }
}

/// Reads the header of a decrypted request: salt, session, message
/// identifier, sequence number and body length.  It fails, as its first
/// short read does, when fewer than 32 bytes remain.
pub fn read_message_header(data: &mut TlBuffer) -> (r: Result<MessageHeader, TlBufferError>)
    ensures
        final(data)@.data == old(data)@.data,
        has_room(old(data)@, 32) ==> (r matches Ok(h) && (h.salt as int, h.session_id as int, h.msg_id
            as int, h.seq_no as int, h.length as int) == header_fields(old(data)@) && final(data)@.position
            == old(data)@.position + 32),
        !has_room(old(data)@, 32) ==> (r matches Err(TlBufferError::NotEnoughData(s)) && s@ == "$t"@)
            && final(data)@.position == header_stop(old(data)@),
{
    let ghost b = data@;
    let ghost p = b.position;
    proof {
        lemma_pow256_values();
        reveal_with_fuel(pow256, 9);
        if has_room(b, 32) {
            crate::encoding::lemma_le_int_range(b.data.subrange(p, p + 8));
            crate::encoding::lemma_le_int_range(b.data.subrange(p + 8, p + 16));
            crate::encoding::lemma_le_int_range(b.data.subrange(p + 16, p + 24));
            crate::encoding::lemma_le_int_range(b.data.subrange(p + 24, p + 28));
            crate::encoding::lemma_le_int_range(b.data.subrange(p + 28, p + 32));
            assert(b.data.subrange(p, p + 8) =~= window(b, 8));
            assert(b.data.subrange(p + 8, p + 16) =~= window(BufferView { position: p + 8, ..b }, 8));
            assert(b.data.subrange(p + 16, p + 24) =~= window(BufferView { position: p + 16, ..b }, 8));
            assert(b.data.subrange(p + 24, p + 28) =~= window(BufferView { position: p + 24, ..b }, 4));
            assert(b.data.subrange(p + 28, p + 32) =~= window(BufferView { position: p + 28, ..b }, 4));
        }
    }
    let salt = data.read_long()?;
    let session_id = data.read_long()?;
    let msg_id = data.read_long()?;
    let seq_no = data.read_int()?;
    let length = data.read_int()?;
    Ok(MessageHeader { salt, session_id, msg_id, seq_no, length })
}

/// Why a request's session is refused.
#[derive(Debug, Clone, Copy, PartialEq, Eq, Structural)]
pub enum SessionError {
    /// The request names session zero.
    ZeroSessionId,
    /// The request names another session than the connection's.
    SessionChanged,
}

impl SessionError {
    /// The text of the error.
    pub fn message(&self) -> (s: String)
        ensures
            s@ == match self {
                SessionError::ZeroSessionId => "cannot have session_id == 0"@,
                SessionError::SessionChanged => "session_id changed"@,
            },
    {
        match self {
            SessionError::ZeroSessionId => String::from_str("cannot have session_id == 0"),
            SessionError::SessionChanged => String::from_str("session_id changed"),
        }
    }
}

/// The check of the session a request names against the connection's.
pub open spec fn session_check(current: i64, incoming: i64) -> Result<(i64, bool), SessionError> {
    if incoming == 0 {
        Err(SessionError::ZeroSessionId)
    } else if current == 0 {
        Ok((incoming, true))
    } else if current == incoming {
        Ok((current, false))
    } else {
        Err(SessionError::SessionChanged)
    }
}

/// Checks the session a request names against the connection's, `current`
/// (zero before the first request).  The first request fixes the session;
/// the result is the session and whether this request fixed it.
pub fn accept_session_id(current: i64, incoming: i64) -> (r: Result<(i64, bool), SessionError>)
    ensures
        r == session_check(current, incoming),
        incoming == 0 ==> r == Err::<(i64, bool), SessionError>(SessionError::ZeroSessionId),
        incoming != 0 && current == 0 ==> r == Ok::<(i64, bool), SessionError>((incoming, true)),
        incoming != 0 && current != 0 && current == incoming ==> r == Ok::<(i64, bool), SessionError>(
            (current, false),
        ),
        incoming != 0 && current != 0 && current != incoming ==> r == Err::<(i64, bool), SessionError>(
            SessionError::SessionChanged,
        ),
{
    if incoming == 0 {
        return Err(SessionError::ZeroSessionId);
    }
    let mut id = current;
    let mut first = false;
    if id == 0 && incoming != 0 {
        id = incoming;
        first = true;
    }
    if id != incoming {
        return Err(SessionError::SessionChanged);
    }
    Ok((id, first))
}


/// Once a connection's session is fixed, no request changes it: a request
/// is accepted only when it names that session.
pub proof fn law_session_fixed(current: i64, incoming: i64)
    requires
        current != 0,
    ensures
        session_check(current, incoming) is Ok ==> incoming == current && session_check(
            current,
            incoming,
        ) == Ok::<(i64, bool), SessionError>((current, false)),
{
}

} // verus!
