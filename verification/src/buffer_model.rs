//! The abstract state of a byte buffer with a cursor, and what writes do to it.
use vstd::prelude::*;

verus! {

/// The abstract state of a buffer: its bytes and its cursor.
pub struct BufferView {
    pub data: Seq<u8>,
    pub position: int,
}

/// `n` zero bytes.
pub open spec fn zeros(n: int) -> Seq<u8> {
    Seq::new(n as nat, |i: int| 0u8)
}

/// Zero bytes needed to bring `k` up to a multiple of four.
pub open spec fn padding_for(k: int) -> int {
    (4 - (k % 4)) % 4
}

/// The length the data has after a write at `pos` that first reserved `reserve`
/// bytes: the data grows by `reserve` when the reserved span passes its end.
pub open spec fn grown_len(len: int, pos: int, reserve: int) -> int {
    if pos + reserve > len {
        len + reserve
    } else {
        len
    }
}

/// The data after `chunk` is written at `pos`, having first reserved `reserve`
/// bytes; bytes past the old end that the chunk does not cover are zero.
pub open spec fn written(data: Seq<u8>, pos: int, reserve: int, chunk: Seq<u8>) -> Seq<u8> {
    let g = grown_len(data.len() as int, pos, reserve);
    let end = pos + chunk.len();
    let n = if g >= end {
        g
    } else {
        end
    };
    Seq::new(
        n as nat,
        |i: int|
            if pos <= i < end {
                chunk[i - pos]
            } else if i < data.len() {
                data[i]
            } else {
                0u8
            },
    )
}

/// The `n` bytes under the cursor, when they exist.
pub open spec fn window(b: BufferView, n: int) -> Seq<u8> {
    b.data.subrange(b.position, b.position + n)
}

/// The cursor is followed by at least `n` bytes.
pub open spec fn has_room(b: BufferView, n: int) -> bool {
    0 <= b.position && b.position + n <= b.data.len()
}

/// The cursor after a fixed-size read of `n` bytes.
pub open spec fn fixed_pos(b: BufferView, n: int) -> int {
    if has_room(b, n) {
        b.position + n
    } else {
        b.position
    }
}

/// A write at the cursor may add `k` bytes: the cursor lies within the data
/// and the grown data stays within what a vector can hold.
pub open spec fn writable(b: BufferView, k: int) -> bool {
    0 <= b.position <= b.data.len() && b.data.len() + k <= isize::MAX
}

/// A write at a cursor within the data covers the chunk, and adds no more
/// than it reserved when the chunk fits in the reservation.
pub proof fn lemma_written_len(data: Seq<u8>, pos: int, reserve: int, chunk: Seq<u8>)
    requires
        0 <= pos <= data.len(),
        reserve >= 0,
    ensures
        written(data, pos, reserve, chunk).len() >= pos + chunk.len(),
        written(data, pos, reserve, chunk).len() >= data.len(),
        chunk.len() <= reserve ==> written(data, pos, reserve, chunk).len() <= data.len() + reserve,
{
}


/// A write at the end of the data that reserves exactly its length appends it.
pub proof fn lemma_written_at_end(data: Seq<u8>, chunk: Seq<u8>)
    ensures
        written(data, data.len() as int, chunk.len() as int, chunk) == data + chunk,
{
    assert(written(data, data.len() as int, chunk.len() as int, chunk) =~= data + chunk);
}

/// A write that reserves exactly its chunk puts the chunk at the position,
/// keeps every byte before it and after it, and leaves the data as long as
/// before, or grown by the chunk's length when the chunk passes the end.
pub proof fn lemma_raw_write(data: Seq<u8>, pos: int, chunk: Seq<u8>)
    requires
        0 <= pos <= data.len(),
    ensures
        written(data, pos, chunk.len() as int, chunk).subrange(pos, pos + chunk.len()) == chunk,
        written(data, pos, chunk.len() as int, chunk).subrange(0, pos) == data.subrange(0, pos),
        written(data, pos, chunk.len() as int, chunk).len() == if pos + chunk.len() > data.len() {
            data.len() + chunk.len()
        } else {
            data.len()
        },
        forall|i: int|
            pos + chunk.len() <= i < data.len() ==> #[trigger] written(data, pos, chunk.len() as int, chunk)[i]
                == data[i],
{
    let w = written(data, pos, chunk.len() as int, chunk);
    assert(w.subrange(pos, pos + chunk.len()) =~= chunk);
    assert(w.subrange(0, pos) =~= data.subrange(0, pos));
}

} // verus!
