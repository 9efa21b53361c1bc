//! The byte buffer of the MTProto object reader: TL primitives with its own
//! framing of byte strings.
use vstd::prelude::*;
use crate::encoding::{
    pow256, le_uint, le_bytes, le_int, le_int_bytes, lemma_pow256_values, lemma_pow256_monotone,
    lemma_le_uint_bound, lemma_le_bytes_len, read_le, write_le, copy_range, append_all, pow2_half,
};
use crate::buffer_model::{BufferView, zeros, written, window, has_room, fixed_pos, writable};
use crate::tl_error::{TlError, tl_result_is};

verus! {

/// The signed value of the `n` bytes under the cursor, when they exist.
pub open spec fn fixed_value(b: BufferView, n: int) -> Option<int> {
    if has_room(b, n) {
        Some(le_int(window(b, n)))
    } else {
        None
    }
}

/// Maps the integer outcome of a primitive read to a typed one.
pub open spec fn typed_value<T>(o: Option<int>, f: spec_fn(int) -> T) -> Option<T> {
    match o {
        Some(v) => Some(f(v)),
        None => None,
    }
}

/// A byte read as a signed byte and widened to 32 bits.
pub open spec fn sign_extend(b: u8) -> i32 {
    if b >= 128 {
        (b as int - 256) as i32
    } else {
        b as i32
    }
}

/// The three-byte value of `read_int24`: each byte sign-extended, shifted into
/// place and or-ed together, so that a byte with its top bit set fills all
/// higher bits.
pub open spec fn int24_value(b0: u8, b1: u8, b2: u8) -> i32 {
    sign_extend(b0) | (sign_extend(b1) << 8u32) | (sign_extend(b2) << 16u32)
}

/// Zero bytes that follow a byte string of this buffer: one to four, so that
/// the length byte and the bytes end on a multiple of four plus that padding.
pub open spec fn pad_after(k: int) -> int {
    4 - (k % 4)
}

/// The byte-string encoding of this buffer: the length truncated to one byte,
/// the bytes, and `pad_after(n + 1)` zero bytes.
pub open spec fn short_bytes_encoding(value: Seq<u8>) -> Seq<u8> {
    let n = value.len() as int;
    seq![(n % 256) as u8] + value + zeros(pad_after(n + 1))
}

/// The outcome of reading a byte string at the cursor, with the cursor after it.
/// A length byte of `0xfe` announces a three-byte length; any other length byte
/// from `0x80` up reads, sign-extended, as a length past every buffer end.
pub open spec fn short_bytes_read(b: BufferView) -> (Option<Seq<u8>>, int) {
    let p = b.position;
    let d = b.data;
    if !has_room(b, 1) {
        (None, p)
    } else if d[p] == 0xfe {
        if p + 4 > d.len() {
            (None, p + 1)
        } else {
            let v = int24_value(d[p + 1], d[p + 2], d[p + 3]) as int;
            if v < 0 || p + 4 + v > d.len() {
                (None, p + 4)
            } else {
                (Some(d.subrange(p + 4, p + 4 + v)), p + 4 + v + pad_after(v + 1))
            }
        }
    } else if d[p] >= 0x80 {
        (None, p + 1)
    } else {
        let n = d[p] as int;
        if p + 1 + n > d.len() {
            (None, p + 1)
        } else {
            (Some(d.subrange(p + 1, p + 1 + n)), p + 1 + n + pad_after(n + 1))
        }
    }
}

/// A growable byte buffer with a read/write cursor.
#[derive(Debug)]
pub struct BytesBuffer {
    data: Vec<u8>,
    position: usize,
}

impl View for BytesBuffer {
    type V = BufferView;

    closed spec fn view(&self) -> BufferView {
        BufferView { data: self.data@, position: self.position as int }
    }
}

/// A byte read as a signed byte and widened to 32 bits.
fn sign_extend_exec(b: u8) -> (v: i32)
    ensures
        v == sign_extend(b),
{
    if b >= 128 {
        b as i32 - 256
    } else {
        b as i32
    }
}

impl BytesBuffer {
    #[verifier::type_invariant]
    closed spec fn inv(self) -> bool {
        self.data@.len() <= isize::MAX
    }

    /// A buffer over `data` with the cursor at the start.
    pub fn new(data: Vec<u8>) -> (b: BytesBuffer)
        requires
            data@.len() <= isize::MAX,
        ensures
            b@.data == data@,
            b@.position == 0,
    {
        BytesBuffer { data, position: 0 }
    }

    /// The cursor.
    pub fn position(&self) -> (p: usize)
        ensures
            p == self@.position,
    {
        self.position
    }

    /// Moves the cursor to `position`, which may lie past the end.
    pub fn seek(&mut self, position: usize)
        ensures
            final(self)@.data == old(self)@.data,
            final(self)@.position == position,
    {
        proof {
            use_type_invariant(&*self);
        }
        self.position = position;
    }

    /// All bytes of the buffer.
    pub fn data(&self) -> (d: &[u8])
        ensures
            d@ == self@.data,
    {
        self.data.as_slice()
    }

    /// Advances the cursor over `n` bytes when they are all there.
    fn take(&mut self, n: usize) -> (ok: bool)
        ensures
            ok == has_room(old(self)@, n as int),
            final(self)@.data == old(self)@.data,
            final(self)@.position == fixed_pos(old(self)@, n as int),
            final(self)@.data.len() <= isize::MAX,
    {
        proof {
            use_type_invariant(&*self);
        }
        if self.position <= self.data.len() && n <= self.data.len() - self.position {
            self.position = self.position + n;
            true
        } else {
            false
        }
    }

    /// Reads `n` bytes as a little-endian two's complement integer.
    fn read_signed(&mut self, n: usize) -> (r: Option<i128>)
        requires
            1 <= n <= 16,
        ensures
            final(self)@.data == old(self)@.data,
            final(self)@.position == fixed_pos(old(self)@, n as int),
            match fixed_value(old(self)@, n as int) {
                Some(v) => r == Some(v as i128) && -(pow256(n as nat) / 2) <= v < pow256(n as nat)
                    / 2,
                None => r is None,
            },
    {
        let start = self.position;
        if !self.take(n) {
            return None;
        }
        let u = read_le(&self.data, start, n);
        proof {
            lemma_pow256_values();
            lemma_le_uint_bound(self.data@.subrange(start as int, start + n));
            lemma_pow256_monotone(n as nat, 16);
            assert(pow256(n as nat) == 256 * pow256((n - 1) as nat));
            lemma_pow256_monotone(0, (n - 1) as nat);
        }
        let half = pow2_half(n);
        if u >= half {
            let v = ((u - half) as i128) - ((half - 1) as i128) - 1;
            Some(v)
        } else {
            Some(u as i128)
        }
    }

    /// Reads a signed byte.
    pub fn read_byte(&mut self) -> (r: Result<i8, TlError>)
        ensures
            final(self)@.data == old(self)@.data,
            final(self)@.position == fixed_pos(old(self)@, 1),
            tl_result_is(r, typed_value(fixed_value(old(self)@, 1), |v: int| v as i8)),
    {
        proof {
            lemma_pow256_values();
        }
        match self.read_signed(1) {
            Some(v) => Ok(v as i8),
            None => Err(TlError::NotEnoughData),
        }
    }

    /// Reads a 32-bit integer.
    pub fn read_int(&mut self) -> (r: Result<i32, TlError>)
        ensures
            final(self)@.data == old(self)@.data,
            final(self)@.position == fixed_pos(old(self)@, 4),
            tl_result_is(r, typed_value(fixed_value(old(self)@, 4), |v: int| v as i32)),
    {
        proof {
            lemma_pow256_values();
        }
        match self.read_signed(4) {
            Some(v) => Ok(v as i32),
            None => Err(TlError::NotEnoughData),
        }
    }

    /// Reads a 64-bit integer.
    pub fn read_long(&mut self) -> (r: Result<i64, TlError>)
        ensures
            final(self)@.data == old(self)@.data,
            final(self)@.position == fixed_pos(old(self)@, 8),
            tl_result_is(r, typed_value(fixed_value(old(self)@, 8), |v: int| v as i64)),
    {
        proof {
            lemma_pow256_values();
        }
        match self.read_signed(8) {
            Some(v) => Ok(v as i64),
            None => Err(TlError::NotEnoughData),
        }
    }

    /// Reads a 128-bit integer.
    pub fn read_int128(&mut self) -> (r: Result<i128, TlError>)
        ensures
            final(self)@.data == old(self)@.data,
            final(self)@.position == fixed_pos(old(self)@, 16),
            tl_result_is(r, typed_value(fixed_value(old(self)@, 16), |v: int| v as i128)),
    {
        match self.read_signed(16) {
            Some(v) => Ok(v),
            None => Err(TlError::NotEnoughData),
        }
    }

    /// Reads a 128-bit unsigned integer.
    pub fn read_u128(&mut self) -> (r: Result<u128, TlError>)
        ensures
            final(self)@.data == old(self)@.data,
            final(self)@.position == fixed_pos(old(self)@, 16),
            tl_result_is(
                r,
                if has_room(old(self)@, 16) {
                    Some(le_uint(window(old(self)@, 16)) as u128)
                } else {
                    None
                },
            ),
    {
        let start = self.position;
        if !self.take(16) {
            return Err(TlError::NotEnoughData);
        }
        Ok(read_le(&self.data, start, 16))
    }

    /// Reads three bytes as `int24_value` combines them.
    pub fn read_int24(&mut self) -> (r: Result<i32, TlError>)
        ensures
            final(self)@.data == old(self)@.data,
            final(self)@.position == fixed_pos(old(self)@, 3),
            tl_result_is(
                r,
                if has_room(old(self)@, 3) {
                    Some(
                        int24_value(
                            old(self)@.data[old(self)@.position],
                            old(self)@.data[old(self)@.position + 1],
                            old(self)@.data[old(self)@.position + 2],
                        ),
                    )
                } else {
                    None
                },
            ),
    {
        let p = self.position;
        if !self.take(3) {
            return Err(TlError::NotEnoughData);
        }
        let v0 = sign_extend_exec(self.data[p]);
        let v1 = sign_extend_exec(self.data[p + 1]);
        let v2 = sign_extend_exec(self.data[p + 2]);
        Ok(v0 | (v1 << 8u32) | (v2 << 16u32))
    }

    /// Writes `chunk` at the cursor after reserving `reserve` bytes, as every
    /// write of the buffer does, and moves the cursor past it.
    fn put(&mut self, chunk: &[u8], reserve: usize)
        requires
            0 <= old(self)@.position <= old(self)@.data.len(),
            old(self)@.data.len() + reserve <= isize::MAX,
            old(self)@.position + chunk@.len() <= isize::MAX,
        ensures
            final(self)@.data == written(old(self)@.data, old(self)@.position, reserve as int, chunk@),
            final(self)@.position == old(self)@.position + chunk@.len(),
    {
        proof {
            use_type_invariant(&*self);
        }
        let ghost old_data = self.data@;
        let len = self.data.len();
        let pos = self.position;
        let grown = if pos + reserve > len {
            len + reserve
        } else {
            len
        };
        let end = pos + chunk.len();
        let target = if grown >= end {
            grown
        } else {
            end
        };
        let mut data = Vec::new();
        std::mem::swap(&mut data, &mut self.data);
        while data.len() < target
            invariant
                len == old_data.len(),
                len <= data.len() <= target,
                target <= isize::MAX,
                forall|j: int| 0 <= j < len ==> data@[j] == old_data[j],
                forall|j: int| len <= j < data@.len() ==> data@[j] == 0u8,
            decreases target - data.len(),
        {
            data.push(0u8);
        }
        let mut i: usize = 0;
        while i < chunk.len()
            invariant
                len == old_data.len(),
                data@.len() == target,
                pos + chunk@.len() <= target,
                pos <= len,
                i <= chunk@.len(),
                forall|j: int|
                    0 <= j < target ==> data@[j] == (if pos <= j < pos + i {
                        chunk@[j - pos]
                    } else if j < len {
                        old_data[j]
                    } else {
                        0u8
                    }),
            decreases chunk@.len() - i,
        {
            data.set(pos + i, chunk[i]);
            i = i + 1;
        }
        assert(data@ =~= written(old_data, pos as int, reserve as int, chunk@));
        self.data = data;
        self.position = end;
    }

    /// Writes the `n` low bytes of `u` at the cursor.
    fn put_le(&mut self, u: u128, n: usize)
        requires
            1 <= n <= 16,
            writable(old(self)@, n as int),
        ensures
            final(self)@.data == written(old(self)@.data, old(self)@.position, n as int, le_bytes(u as nat, n as nat)),
            final(self)@.position == old(self)@.position + n,
    {
        let bytes = write_le(u, n);
        proof {
            lemma_le_bytes_len(u as nat, n as nat);
        }
        self.put(bytes.as_slice(), n);
    }

    /// Writes a signed byte.
    pub fn write_byte(&mut self, value: i8)
        requires
            writable(old(self)@, 1),
        ensures
            final(self)@.data == written(old(self)@.data, old(self)@.position, 1, le_int_bytes(value as int, 1)),
            final(self)@.position == old(self)@.position + 1,
    {
        proof {
            lemma_pow256_values();
        }
        let u: u128 = if value < 0 {
            (value as i16 + 256) as u128
        } else {
            value as u128
        };
        self.put_le(u, 1);
    }

    /// Writes a 32-bit integer.
    pub fn write_int(&mut self, value: i32)
        requires
            writable(old(self)@, 4),
        ensures
            final(self)@.data == written(old(self)@.data, old(self)@.position, 4, le_int_bytes(value as int, 4)),
            final(self)@.position == old(self)@.position + 4,
    {
        proof {
            lemma_pow256_values();
        }
        let u: u128 = if value < 0 {
            (value as i64 + 0x1_0000_0000) as u128
        } else {
            value as u128
        };
        self.put_le(u, 4);
    }

    /// Writes a 64-bit integer.
    pub fn write_long(&mut self, value: i64)
        requires
            writable(old(self)@, 8),
        ensures
            final(self)@.data == written(old(self)@.data, old(self)@.position, 8, le_int_bytes(value as int, 8)),
            final(self)@.position == old(self)@.position + 8,
    {
        proof {
            lemma_pow256_values();
        }
        let u: u128 = if value < 0 {
            (value as i128 + 0x1_0000_0000_0000_0000) as u128
        } else {
            value as u128
        };
        self.put_le(u, 8);
    }

    /// Writes a 128-bit integer.
    pub fn write_int128(&mut self, value: i128)
        requires
            writable(old(self)@, 16),
        ensures
            final(self)@.data == written(old(self)@.data, old(self)@.position, 16, le_int_bytes(value as int, 16)),
            final(self)@.position == old(self)@.position + 16,
    {
        proof {
            lemma_pow256_values();
        }
        let u: u128 = if value < 0 {
            ((value - i128::MIN) as u128) + 0x8000_0000_0000_0000_0000_0000_0000_0000
        } else {
            value as u128
        };
        self.put_le(u, 16);
    }

    /// Reads a byte string.
    pub fn read_bytes(&mut self) -> (r: Result<Vec<u8>, TlError>)
        ensures
            final(self)@.data == old(self)@.data,
            final(self)@.position == short_bytes_read(old(self)@).1,
            tl_result_is(r, short_bytes_read(old(self)@).0),
    {
        proof {
            use_type_invariant(&*self);
        }
        let p = self.position;
        if !self.take(1) {
            return Err(TlError::NotEnoughData);
        }
        let b = self.data[p];
        let length: usize = if b == 0xfe {
            let v = self.read_int24()?;
            if v < 0 {
                return Err(TlError::NotEnoughData);
            }
            v as usize
        } else if b >= 0x80 {
            return Err(TlError::NotEnoughData);
        } else {
            b as usize
        };
        let start = self.position;
        let len = self.data.len();
        if start > len || length > len - start {
            return Err(TlError::NotEnoughData);
        }
        let padding = 4 - ((length + 1) % 4);
        let out = copy_range(&self.data, start, start + length);
        self.position = start + length + padding;
        Ok(out)
    }

    /// Writes a byte string with a one-byte length.
    pub fn write_bytes(&mut self, value: &[u8])
        requires
            writable(old(self)@, value@.len() as int + 8),
        ensures
            final(self)@.data == written(
                old(self)@.data,
                old(self)@.position,
                value@.len() as int + 1,
                short_bytes_encoding(value@),
            ),
            final(self)@.position == old(self)@.position + short_bytes_encoding(value@).len(),
    {
        let n = value.len();
        let mut enc: Vec<u8> = Vec::new();
        enc.push((n % 256) as u8);
        append_all(&mut enc, value);
        let padding = 4 - ((n + 1) % 4);
        let ghost body = enc@;
        let mut i: usize = 0;
        while i < padding
            invariant
                i <= padding,
                enc@ == body + zeros(i as int),
            decreases padding - i,
        {
            enc.push(0u8);
            i = i + 1;
            assert(enc@ =~= body + zeros(i as int));
        }
        assert(enc@ =~= short_bytes_encoding(value@));
        self.put(enc.as_slice(), n + 1);
    }

    /// Reads `length` raw bytes.
    pub fn read_raw(&mut self, length: usize) -> (r: Result<Vec<u8>, TlError>)
        ensures
            final(self)@.data == old(self)@.data,
            final(self)@.position == fixed_pos(old(self)@, length as int),
            tl_result_is(
                r,
                if has_room(old(self)@, length as int) {
                    Some(window(old(self)@, length as int))
                } else {
                    None
                },
            ),
    {
        let start = self.position;
        if !self.take(length) {
            return Err(TlError::NotEnoughData);
        }
        Ok(copy_range(&self.data, start, start + length))
    }

    /// Writes raw bytes.
    pub fn write_raw(&mut self, value: &[u8])
        requires
            writable(old(self)@, value@.len() as int),
        ensures
            final(self)@.data == written(old(self)@.data, old(self)@.position, value@.len() as int, value@),
            final(self)@.position == old(self)@.position + value@.len(),
    {
        self.put(value, value.len());
    }
}

} // verus!
