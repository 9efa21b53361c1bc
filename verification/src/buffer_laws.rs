//! What the buffers promise across calls: a value written at a position reads
//! back from that position.
use vstd::prelude::*;
use crate::encoding::{
    pow256, le_uint, le_bytes, le_int_bytes, unsigned_of, lemma_pow256_values,
    lemma_le_int_roundtrip, lemma_le_roundtrip, lemma_le_bytes_len,
};
use crate::buffer_model::{BufferView, written, window, has_room, fixed_pos, padding_for, writable};
use crate::tl_buffer::{
    Outcome, fixed_read, tl_bytes_encoding, tl_bytes_reserve, tl_bytes_read, tl_string_read,
    tl_bool_read, bool_true_id, bool_false_id,
};
use crate::bytes_buffer::{fixed_value, short_bytes_encoding, short_bytes_read, pad_after};
use vstd::utf8::{encode_utf8, decode_utf8, valid_utf8};

verus! {

/// The bytes of a write land at the position it was made at.
pub proof fn lemma_written_window(data: Seq<u8>, pos: int, reserve: int, chunk: Seq<u8>)
    requires
        0 <= pos <= data.len(),
        reserve >= 0,
    ensures
        written(data, pos, reserve, chunk).len() >= pos + chunk.len(),
        written(data, pos, reserve, chunk).subrange(pos, pos + chunk.len()) == chunk,
{
    assert(written(data, pos, reserve, chunk).subrange(pos, pos + chunk.len()) =~= chunk);
}

/// A write leaves every byte before the cursor as it was.
pub proof fn law_write_keeps_prefix(data: Seq<u8>, pos: int, reserve: int, chunk: Seq<u8>)
    requires
        0 <= pos <= data.len(),
        reserve >= 0,
    ensures
        written(data, pos, reserve, chunk).subrange(0, pos) == data.subrange(0, pos),
{
    assert(written(data, pos, reserve, chunk).subrange(0, pos) =~= data.subrange(0, pos));
}

/// A fixed-width signed value written at a position reads back from that
/// position, and both leave the cursor just past it.
pub proof fn law_fixed_roundtrip(b: BufferView, v: int, n: nat)
    requires
        1 <= n <= 16,
        writable(b, n as int),
        -(pow256(n) / 2) <= v < pow256(n) / 2,
    ensures
        ({
            let after = BufferView {
                data: written(b.data, b.position, n as int, le_int_bytes(v, n)),
                position: b.position,
            };
            &&& fixed_read(after, n as int) == Outcome::Done(v)
            &&& fixed_pos(after, n as int) == b.position + n
        }),
{
    lemma_le_int_roundtrip(v, n);
    lemma_written_window(b.data, b.position, n as int, le_int_bytes(v, n));
}

/// A boolean written at a position reads back from that position.
pub proof fn law_bool_roundtrip(b: BufferView, value: bool)
    requires
        writable(b, 4),
    ensures
        ({
            let id = if value {
                bool_true_id()
            } else {
                bool_false_id()
            };
            let after = BufferView {
                data: written(b.data, b.position, 4, le_int_bytes(id, 4)),
                position: b.position,
            };
            &&& tl_bool_read(after) == Outcome::Done(value)
            &&& fixed_pos(after, 4) == b.position + 4
        }),
{
    lemma_pow256_values();
    let id = if value {
        bool_true_id()
    } else {
        bool_false_id()
    };
    law_fixed_roundtrip(b, id, 4);
}

/// A three-byte value written at a position reads back from that position.
pub proof fn law_int24_roundtrip(b: BufferView, v: int)
    requires
        writable(b, 3),
        0 <= v < 0x100_0000,
    ensures
        ({
            let after = BufferView {
                data: written(b.data, b.position, 3, le_bytes(unsigned_of(v, 4), 3)),
                position: b.position,
            };
            &&& has_room(after, 3)
            &&& le_uint(window(after, 3)) == v
        }),
{
    lemma_pow256_values();
    lemma_le_roundtrip(v as nat, 3);
    lemma_written_window(b.data, b.position, 3, le_bytes(unsigned_of(v, 4), 3));
}

/// The length of the TL encoding of a byte string.
#[verifier::rlimit(40)]
pub proof fn lemma_tl_bytes_encoding_len(value: Seq<u8>)
    ensures
        tl_bytes_encoding(value).len() == (if value.len() >= 0xfe {
            4 + value.len() + padding_for(value.len() as int)
        } else {
            1 + value.len() + padding_for(value.len() as int + 1)
        }),
        tl_bytes_encoding(value).len() % 4 == 0,
        tl_bytes_encoding(value).len() <= value.len() + 7,
{
    lemma_le_bytes_len(value.len() as nat, 3);
    let n = value.len() as int;
    if n >= 0xfe {
        assert(padding_for(n) == (4 - n % 4) % 4);
        assert((4 + n + (4 - n % 4) % 4) % 4 == 0) by (nonlinear_arith)
            requires
                n >= 0,
        ;
    } else {
        assert(padding_for(n + 1) == (4 - (n + 1) % 4) % 4);
        assert((1 + n + (4 - (n + 1) % 4) % 4) % 4 == 0) by (nonlinear_arith)
            requires
                n >= 0,
        ;
    }
}

/// A byte string shorter than `2^24` written at a position reads back from
/// that position, and the cursor ends where the write left it.
pub proof fn law_bytes_roundtrip(b: BufferView, value: Seq<u8>)
    requires
        writable(b, value.len() as int + 8),
        value.len() < 0x100_0000,
    ensures
        ({
            let enc = tl_bytes_encoding(value);
            let after = BufferView {
                data: written(b.data, b.position, tl_bytes_reserve(value.len() as int), enc),
                position: b.position,
            };
            tl_bytes_read(after) == (Outcome::Done(value), b.position + enc.len())
        }),
{
    let n = value.len() as int;
    let p = b.position;
    let enc = tl_bytes_encoding(value);
    let d = written(b.data, p, tl_bytes_reserve(n), enc);
    lemma_tl_bytes_encoding_len(value);
    lemma_written_window(b.data, p, tl_bytes_reserve(n), enc);
    let w = d.subrange(p, p + enc.len());
    assert(w == enc);
    if n >= 0xfe {
        lemma_pow256_values();
        lemma_le_roundtrip(n as nat, 3);
        assert(d[p] == enc[0]);
        assert(d.subrange(p + 1, p + 4) =~= le_bytes(n as nat, 3)) by {
            assert forall|i: int| 0 <= i < 3 implies #[trigger] d.subrange(p + 1, p + 4)[i]
                == le_bytes(n as nat, 3)[i] by {
                assert(d[p + 1 + i] == w[1 + i]);
                assert(enc[1 + i] == le_bytes(n as nat, 3)[i]);
            }
        }
        assert(d.subrange(p + 4, p + 4 + n) =~= value) by {
            assert forall|i: int| 0 <= i < n implies #[trigger] d.subrange(p + 4, p + 4 + n)[i] == value[i] by {
                assert(d[p + 4 + i] == w[4 + i]);
                assert(enc[4 + i] == value[i]);
            }
        }
    } else {
        assert(d[p] == enc[0]);
        assert(d.subrange(p + 1, p + 1 + n) =~= value) by {
            assert forall|i: int| 0 <= i < n implies #[trigger] d.subrange(p + 1, p + 1 + n)[i] == value[i] by {
                assert(d[p + 1 + i] == w[1 + i]);
                assert(enc[1 + i] == value[i]);
            }
        }
    }
}

/// A string written at a position reads back from that position, when its
/// UTF-8 encoding is shorter than `2^24` bytes.
pub proof fn law_string_roundtrip(b: BufferView, s: Seq<char>)
    requires
        writable(b, encode_utf8(s).len() as int + 8),
        encode_utf8(s).len() < 0x100_0000,
    ensures
        ({
            let bytes = encode_utf8(s);
            let after = BufferView {
                data: written(
                    b.data,
                    b.position,
                    tl_bytes_reserve(bytes.len() as int),
                    tl_bytes_encoding(bytes),
                ),
                position: b.position,
            };
            tl_string_read(after) == Outcome::Done(s)
        }),
{
    law_bytes_roundtrip(b, encode_utf8(s));
    vstd::utf8::encode_utf8_valid_utf8(s);
    vstd::utf8::encode_utf8_decode_utf8(s);
}

/// For the object reader's buffer: a fixed-width signed value written at a
/// position reads back from that position.
pub proof fn law_fixed_value_roundtrip(b: BufferView, v: int, n: nat)
    requires
        1 <= n <= 16,
        writable(b, n as int),
        -(pow256(n) / 2) <= v < pow256(n) / 2,
    ensures
        ({
            let after = BufferView {
                data: written(b.data, b.position, n as int, le_int_bytes(v, n)),
                position: b.position,
            };
            &&& fixed_value(after, n as int) == Some(v)
            &&& fixed_pos(after, n as int) == b.position + n
        }),
{
    lemma_le_int_roundtrip(v, n);
    lemma_written_window(b.data, b.position, n as int, le_int_bytes(v, n));
}

/// For the object reader's buffer: a byte string shorter than 128 bytes
/// written at a position reads back from that position, and the cursor ends
/// where the write left it.
pub proof fn law_short_bytes_roundtrip(b: BufferView, value: Seq<u8>)
    requires
        writable(b, value.len() as int + 8),
        value.len() < 0x80,
    ensures
        ({
            let enc = short_bytes_encoding(value);
            let after = BufferView {
                data: written(b.data, b.position, value.len() as int + 1, enc),
                position: b.position,
            };
            short_bytes_read(after) == (Some(value), b.position + enc.len())
        }),
{
    let n = value.len() as int;
    let p = b.position;
    let enc = short_bytes_encoding(value);
    let d = written(b.data, p, n + 1, enc);
    lemma_written_window(b.data, p, n + 1, enc);
    let w = d.subrange(p, p + enc.len());
    assert(w == enc);
    assert(d[p] == enc[0]);
    assert(d.subrange(p + 1, p + 1 + n) =~= value) by {
        assert forall|i: int| 0 <= i < n implies #[trigger] d.subrange(p + 1, p + 1 + n)[i] == value[i] by {
            assert(d[p + 1 + i] == w[1 + i]);
            assert(enc[1 + i] == value[i]);
        }
    }
}

/// Raw bytes written at a cursor within the data land at the cursor, leave
/// every byte before and after them as it was, and grow the data by their
/// length exactly when they pass its end.
pub proof fn law_write_raw(b: BufferView, v: Seq<u8>)
    requires
        writable(b, v.len() as int),
    ensures
        written(b.data, b.position, v.len() as int, v).subrange(b.position, b.position + v.len()) == v,
        written(b.data, b.position, v.len() as int, v).subrange(0, b.position) == b.data.subrange(0, b.position),
        written(b.data, b.position, v.len() as int, v).len() == if b.position + v.len() > b.data.len() {
            b.data.len() + v.len()
        } else {
            b.data.len()
        },
        forall|i: int|
            b.position + v.len() <= i < b.data.len() ==> #[trigger] written(b.data, b.position, v.len() as int, v)[i]
                == b.data[i],
{
    crate::buffer_model::lemma_raw_write(b.data, b.position, v);
}

} // verus!
