//! A growable byte buffer with a cursor that reads and writes TL primitives.
use vstd::prelude::*;
use vstd::utf8::{valid_utf8, decode_utf8, encode_utf8};
use crate::buffer_model::{
    BufferView, zeros, padding_for, written, window, has_room, fixed_pos, writable,
};
use crate::encoding::{
    pow256, le_uint, le_bytes, le_int, le_int_bytes, unsigned_of, lemma_pow256_values,
    lemma_pow256_monotone, lemma_le_uint_bound, lemma_le_bytes_len, lemma_le_int_range, read_le, write_le, copy_range,
    append_all, pow2_half,
};

verus! {

/// Why a read from a [`TlBuffer`] failed.
#[derive(Debug, Clone)]
pub enum TlBufferError {
    /// The buffer ended before the value did; the text names what was being read.
    NotEnoughData(String),
    /// The bytes do not encode a value of the requested kind.
    BadData,
    /// Any other failure, described by the text.
    Custom(String),
}

impl TlBufferError {
    /// The message that describes the error.
    pub fn message(&self) -> (m: String)
        ensures
            m@ == match self {
                TlBufferError::NotEnoughData(source) => "not enough data when reading "@ + source@,
                TlBufferError::BadData => "bad data"@,
                TlBufferError::Custom(message) => message@,
            },
    {
        match self {
            TlBufferError::NotEnoughData(source) => {
                let mut m = String::from_str("not enough data when reading ");
                m.append(source.as_str());
                m
            },
            TlBufferError::BadData => String::from_str("bad data"),
            TlBufferError::Custom(message) => message.clone(),
        }
    }
}

/// What a read yields in the model: a value, a shortage (with the text the
/// error carries), or malformed data.
pub enum Outcome<T> {
    Done(T),
    Short(Seq<char>),
    Bad,
}

/// `r` is the executable counterpart of the modelled outcome `o`.
pub open spec fn result_is<T: View>(r: Result<T, TlBufferError>, o: Outcome<T::V>) -> bool {
    match o {
        Outcome::Done(w) => r matches Ok(v) && v@ == w,
        Outcome::Short(t) => r matches Err(TlBufferError::NotEnoughData(s)) && s@ == t,
        Outcome::Bad => r matches Err(TlBufferError::BadData),
    }
}

/// The signed value of the `n` bytes under the cursor, or the shortage that
/// the primitive reads report.
pub open spec fn fixed_read(b: BufferView, n: int) -> Outcome<int> {
    if has_room(b, n) {
        Outcome::Done(le_int(window(b, n)))
    } else {
        Outcome::Short("$t"@)
    }
}

/// Maps the integer outcome of a primitive read to a typed one.
pub open spec fn typed<T>(o: Outcome<int>, f: spec_fn(int) -> T) -> Outcome<T> {
    match o {
        Outcome::Done(v) => Outcome::Done(f(v)),
        Outcome::Short(t) => Outcome::Short(t),
        Outcome::Bad => Outcome::Bad,
    }
}

/// The TL encoding of a byte string: a one-byte length (or `0xfe` and a
/// three-byte length for long strings), the bytes, and zero padding to a
/// multiple of four.
pub open spec fn tl_bytes_encoding(value: Seq<u8>) -> Seq<u8> {
    let n = value.len() as int;
    if n >= 0xfe {
        seq![0xfeu8] + le_bytes(n as nat, 3) + value + zeros(padding_for(n))
    } else {
        seq![n as u8] + value + zeros(padding_for(n + 1))
    }
}

/// How many bytes `write_bytes` reserves before it writes.
pub open spec fn tl_bytes_reserve(n: int) -> int {
    if n >= 0xfe {
        n + 4
    } else {
        n + 1
    }
}

/// The outcome of reading a TL byte string at the cursor, with the cursor after it.
pub open spec fn tl_bytes_read(b: BufferView) -> (Outcome<Seq<u8>>, int) {
    let p = b.position;
    let d = b.data;
    if !has_room(b, 1) {
        (Outcome::Short("$t"@), p)
    } else if d[p] >= 0xfe {
        if p + 4 > d.len() {
            (Outcome::Short("int24"@), p + 1)
        } else {
            let n = le_uint(d.subrange(p + 1, p + 4)) as int;
            if p + 4 + n > d.len() {
                (Outcome::Short("bytes"@), p + 4)
            } else {
                (Outcome::Done(d.subrange(p + 4, p + 4 + n)), p + 4 + n + padding_for(n))
            }
        }
    } else {
        let n = d[p] as int;
        if p + 1 + n > d.len() {
            (Outcome::Short("bytes"@), p + 1)
        } else {
            (Outcome::Done(d.subrange(p + 1, p + 1 + n)), p + 1 + n + padding_for(n + 1))
        }
    }
}

/// The constructor numbers of `boolTrue` (and its legacy alias) and `boolFalse`.
pub open spec fn bool_true_id() -> int {
    -1720552011
}

pub open spec fn bool_true_alt_id() -> int {
    1072550713
}

pub open spec fn bool_false_id() -> int {
    -1132882121
}

/// The outcome of reading a TL boolean at the cursor.
pub open spec fn tl_bool_read(b: BufferView) -> Outcome<bool> {
    match fixed_read(b, 4) {
        Outcome::Done(v) => if v == bool_true_id() || v == bool_true_alt_id() {
            Outcome::Done(true)
        } else if v == bool_false_id() {
            Outcome::Done(false)
        } else {
            Outcome::Bad
        },
        Outcome::Short(t) => Outcome::Short(t),
        Outcome::Bad => Outcome::Bad,
    }
}

/// The outcome of reading a TL string: its bytes must be valid UTF-8.
pub open spec fn tl_string_read(b: BufferView) -> Outcome<Seq<char>> {
    match tl_bytes_read(b).0 {
        Outcome::Done(v) => if valid_utf8(v) {
            Outcome::Done(decode_utf8(v))
        } else {
            Outcome::Bad
        },
        Outcome::Short(t) => Outcome::Short(t),
        Outcome::Bad => Outcome::Bad,
    }
}

/// `String::from_utf8`: the string the bytes encode when they are valid UTF-8.
#[verifier::external_body]
fn string_from_utf8(bytes: Vec<u8>) -> (r: Option<String>)
    ensures
        match r {
            Some(s) => valid_utf8(bytes@) && s@ == decode_utf8(bytes@),
            None => !valid_utf8(bytes@),
        },
{
    String::from_utf8(bytes).ok()
}

/// A growable byte buffer with a read/write cursor.
#[derive(Debug)]
pub struct TlBuffer {
    data: Vec<u8>,
    position: usize,
}

impl View for TlBuffer {
    type V = BufferView;

    closed spec fn view(&self) -> BufferView {
        BufferView { data: self.data@, position: self.position as int }
    }
}

/// Builds the shortage error whose text is `what`.
fn short(what: &str) -> (e: TlBufferError)
    ensures
        e matches TlBufferError::NotEnoughData(s) && s@ == what@,
{
    TlBufferError::NotEnoughData(String::from_str(what))
}

impl TlBuffer {
    #[verifier::type_invariant]
    closed spec fn inv(self) -> bool {
        self.data@.len() <= isize::MAX
    }

    /// A buffer over `data` with the cursor at the start.
    pub fn new(data: Vec<u8>) -> (b: TlBuffer)
        requires
            data@.len() <= isize::MAX,
        ensures
            b@.data == data@,
            b@.position == 0,
    {
        TlBuffer { data, position: 0 }
    }

    /// The cursor.
    pub fn position(&self) -> (p: usize)
        ensures
            p == self@.position,
    {
        self.position
    }

    /// Moves the cursor to `position`, which may lie past the end.
    pub fn seek(&mut self, position: usize)
        ensures
            final(self)@.data == old(self)@.data,
            final(self)@.position == position,
    {
        proof {
            use_type_invariant(&*self);
        }
        self.position = position;
    }

    /// All bytes of the buffer.
    pub fn data(&self) -> (d: &[u8])
        ensures
            d@ == self@.data,
    {
        self.data.as_slice()
    }

    /// The number of bytes in the buffer.
    pub fn len(&self) -> (n: usize)
        ensures
            n == self@.data.len(),
    {
        self.data.len()
    }

    /// Advances the cursor over `n` bytes when they are all there.
    fn take(&mut self, n: usize) -> (ok: bool)
        ensures
            ok == has_room(old(self)@, n as int),
            final(self)@.data == old(self)@.data,
            final(self)@.position == fixed_pos(old(self)@, n as int),
            ok ==> final(self)@.data.len() <= isize::MAX,
    {
        proof {
            use_type_invariant(&*self);
        }
        if self.position <= self.data.len() && n <= self.data.len() - self.position {
            self.position = self.position + n;
            true
        } else {
            false
        }
    }

    /// Reads `n` bytes as a little-endian two's complement integer.
    fn read_signed(&mut self, n: usize) -> (r: Option<i128>)
        requires
            1 <= n <= 16,
        ensures
            final(self)@.data == old(self)@.data,
            final(self)@.position == fixed_pos(old(self)@, n as int),
            match fixed_read(old(self)@, n as int) {
                Outcome::Done(v) => r == Some(v as i128) && -(pow256(n as nat) / 2) <= v
                    < pow256(n as nat) / 2,
                _ => r is None,
            },
    {
        let start = self.position;
        if !self.take(n) {
            return None;
        }
        let u = read_le(&self.data, start, n);
        proof {
            lemma_pow256_values();
            lemma_le_uint_bound(self.data@.subrange(start as int, start + n));
            lemma_pow256_monotone(n as nat, 16);
            assert(pow256(n as nat) == 256 * pow256((n - 1) as nat));
            lemma_pow256_monotone(0, (n - 1) as nat);
        }
        let half = pow2_half(n);
        if u >= half {
            let v = ((u - half) as i128) - ((half - 1) as i128) - 1;
            proof {
                assert(v == u - 2 * half);
            }
            Some(v)
        } else {
            Some(u as i128)
        }
    }

    /// Reads a signed byte.
    pub fn read_byte(&mut self) -> (r: Result<i8, TlBufferError>)
        ensures
            final(self)@.data == old(self)@.data,
            final(self)@.position == fixed_pos(old(self)@, 1),
            result_is(r, typed(fixed_read(old(self)@, 1), |v: int| v as i8)),
    {
        match self.read_signed(1) {
            Some(v) => {
                proof {
                    lemma_pow256_values();
                }
                Ok(v as i8)
            },
            None => Err(short("$t")),
        }
    }

    /// Reads a 32-bit integer.
    pub fn read_int(&mut self) -> (r: Result<i32, TlBufferError>)
        ensures
            final(self)@.data == old(self)@.data,
            final(self)@.position == fixed_pos(old(self)@, 4),
            result_is(r, typed(fixed_read(old(self)@, 4), |v: int| v as i32)),
    {
        match self.read_signed(4) {
            Some(v) => {
                proof {
                    lemma_pow256_values();
                }
                Ok(v as i32)
            },
            None => Err(short("$t")),
        }
    }

    /// Reads a 64-bit integer.
    pub fn read_long(&mut self) -> (r: Result<i64, TlBufferError>)
        ensures
            final(self)@.data == old(self)@.data,
            final(self)@.position == fixed_pos(old(self)@, 8),
            result_is(r, typed(fixed_read(old(self)@, 8), |v: int| v as i64)),
    {
        match self.read_signed(8) {
            Some(v) => {
                proof {
                    lemma_pow256_values();
                }
                Ok(v as i64)
            },
            None => Err(short("$t")),
        }
    }

    /// Reads a 128-bit integer.
    pub fn read_int128(&mut self) -> (r: Result<i128, TlBufferError>)
        ensures
            final(self)@.data == old(self)@.data,
            final(self)@.position == fixed_pos(old(self)@, 16),
            result_is(r, typed(fixed_read(old(self)@, 16), |v: int| v as i128)),
    {
        match self.read_signed(16) {
            Some(v) => Ok(v),
            None => Err(short("$t")),
        }
    }

    /// Writes the `n` low bytes of `u` at the cursor.
    fn put_le(&mut self, u: u128, n: usize)
        requires
            1 <= n <= 16,
            writable(old(self)@, n as int),
        ensures
            final(self)@.data == written(old(self)@.data, old(self)@.position, n as int, le_bytes(u as nat, n as nat)),
            final(self)@.position == old(self)@.position + n,
    {
        let bytes = write_le(u, n);
        proof {
            lemma_le_bytes_len(u as nat, n as nat);
        }
        self.put(bytes.as_slice(), n);
    }

    /// Writes a signed byte.
    pub fn write_byte(&mut self, value: i8)
        requires
            writable(old(self)@, 1),
        ensures
            final(self)@.data == written(old(self)@.data, old(self)@.position, 1, le_int_bytes(value as int, 1)),
            final(self)@.position == old(self)@.position + 1,
    {
        proof {
            lemma_pow256_values();
        }
        let u: u128 = if value < 0 {
            (value as i16 + 256) as u128
        } else {
            value as u128
        };
        self.put_le(u, 1);
    }

    /// Writes a 32-bit integer.
    pub fn write_int(&mut self, value: i32)
        requires
            writable(old(self)@, 4),
        ensures
            final(self)@.data == written(old(self)@.data, old(self)@.position, 4, le_int_bytes(value as int, 4)),
            final(self)@.position == old(self)@.position + 4,
    {
        proof {
            lemma_pow256_values();
        }
        let u: u128 = if value < 0 {
            (value as i64 + 0x1_0000_0000) as u128
        } else {
            value as u128
        };
        self.put_le(u, 4);
    }

    /// Writes a 64-bit integer.
    pub fn write_long(&mut self, value: i64)
        requires
            writable(old(self)@, 8),
        ensures
            final(self)@.data == written(old(self)@.data, old(self)@.position, 8, le_int_bytes(value as int, 8)),
            final(self)@.position == old(self)@.position + 8,
    {
        proof {
            lemma_pow256_values();
        }
        let u: u128 = if value < 0 {
            (value as i128 + 0x1_0000_0000_0000_0000) as u128
        } else {
            value as u128
        };
        self.put_le(u, 8);
    }

    /// Writes a 128-bit integer.
    pub fn write_int128(&mut self, value: i128)
        requires
            writable(old(self)@, 16),
        ensures
            final(self)@.data == written(old(self)@.data, old(self)@.position, 16, le_int_bytes(value as int, 16)),
            final(self)@.position == old(self)@.position + 16,
    {
        proof {
            lemma_pow256_values();
        }
        let u: u128 = if value < 0 {
            ((value - i128::MIN) as u128) + 0x8000_0000_0000_0000_0000_0000_0000_0000
        } else {
            value as u128
        };
        self.put_le(u, 16);
    }

    /// Reads a three-byte unsigned little-endian integer.
    pub fn read_int24(&mut self) -> (r: Result<u32, TlBufferError>)
        ensures
            final(self)@.data == old(self)@.data,
            final(self)@.position == fixed_pos(old(self)@, 3),
            result_is(
                r,
                if has_room(old(self)@, 3) {
                    Outcome::Done(le_uint(window(old(self)@, 3)) as u32)
                } else {
                    Outcome::Short("int24"@)
                },
            ),
    {
        let start = self.position;
        if !self.take(3) {
            return Err(short("int24"));
        }
        let u = read_le(&self.data, start, 3);
        proof {
            lemma_pow256_values();
            lemma_le_uint_bound(self.data@.subrange(start as int, start + 3));
        }
        Ok(u as u32)
    }

    /// Writes the low three bytes of `value`, least significant first.
    pub fn write_int24(&mut self, value: i32)
        requires
            writable(old(self)@, 3),
        ensures
            final(self)@.data == written(
                old(self)@.data,
                old(self)@.position,
                3,
                le_bytes(unsigned_of(value as int, 4), 3),
            ),
            final(self)@.position == old(self)@.position + 3,
    {
        proof {
            lemma_pow256_values();
        }
        let u: u128 = if value < 0 {
            (value as i64 + 0x1_0000_0000) as u128
        } else {
            value as u128
        };
        self.put_le(u, 3);
    }

    /// Reads `length` raw bytes.
    pub fn read_raw(&mut self, length: usize) -> (r: Result<Vec<u8>, TlBufferError>)
        ensures
            final(self)@.data == old(self)@.data,
            final(self)@.position == fixed_pos(old(self)@, length as int),
            result_is(
                r,
                if has_room(old(self)@, length as int) {
                    Outcome::Done(window(old(self)@, length as int))
                } else {
                    Outcome::Short("raw"@)
                },
            ),
    {
        let start = self.position;
        if !self.take(length) {
            return Err(short("raw"));
        }
        Ok(copy_range(&self.data, start, start + length))
    }

    /// Writes raw bytes.
    pub fn write_raw(&mut self, value: &[u8])
        requires
            writable(old(self)@, value@.len() as int),
        ensures
            final(self)@.data == written(old(self)@.data, old(self)@.position, value@.len() as int, value@),
            final(self)@.position == old(self)@.position + value@.len(),
            final(self)@.data.subrange(old(self)@.position, old(self)@.position + value@.len()) == value@,
            final(self)@.data.subrange(0, old(self)@.position) == old(self)@.data.subrange(0, old(self)@.position),
            final(self)@.data.len() == if old(self)@.position + value@.len() > old(self)@.data.len() {
                old(self)@.data.len() + value@.len()
            } else {
                old(self)@.data.len()
            },
    {
        proof {
            crate::buffer_model::lemma_raw_write(self@.data, self@.position, value@);
        }
        self.put(value, value.len());
    }

    /// Reads a TL byte string.
    pub fn read_bytes(&mut self) -> (r: Result<Vec<u8>, TlBufferError>)
        ensures
            final(self)@.data == old(self)@.data,
            final(self)@.position == tl_bytes_read(old(self)@).1,
            result_is(r, tl_bytes_read(old(self)@).0),
    {
        proof {
            use_type_invariant(&*self);
        }
        let p = self.position;
        if !self.take(1) {
            return Err(short("$t"));
        }
        let b = self.data[p];
        let mut additional: usize = 1;
        let length: usize = if b >= 0xfe {
            additional = 0;
            let q = self.position;
            if !self.take(3) {
                return Err(short("int24"));
            }
            proof {
                lemma_pow256_values();
                lemma_le_uint_bound(self.data@.subrange(q as int, q + 3));
            }
            read_le(&self.data, q, 3) as usize
        } else {
            b as usize
        };
        let start = self.position;
        let len = self.data.len();
        if start > len || length > len - start {
            return Err(short("bytes"));
        }
        let padding = (4 - ((length + additional) % 4)) % 4;
        let out = copy_range(&self.data, start, start + length);
        self.position = start + length + padding;
        Ok(out)
    }

    /// Writes a TL byte string.
    pub fn write_bytes(&mut self, value: &[u8])
        requires
            writable(old(self)@, value@.len() as int + 8),
        ensures
            final(self)@.data == written(
                old(self)@.data,
                old(self)@.position,
                tl_bytes_reserve(value@.len() as int),
                tl_bytes_encoding(value@),
            ),
            final(self)@.position == old(self)@.position + tl_bytes_encoding(value@).len(),
    {
        let n = value.len();
        let mut enc: Vec<u8> = Vec::new();
        let reserve: usize;
        let padding: usize;
        if n >= 0xfe {
            enc.push(0xfeu8);
            let hdr = write_le(n as u128, 3);
            append_all(&mut enc, hdr.as_slice());
            reserve = n + 4;
            padding = (4 - (n % 4)) % 4;
        } else {
            enc.push(n as u8);
            reserve = n + 1;
            padding = (4 - ((n + 1) % 4)) % 4;
        }
        append_all(&mut enc, value);
        let ghost body = enc@;
        let mut i: usize = 0;
        while i < padding
            invariant
                i <= padding,
                enc@ == body + zeros(i as int),
            decreases padding - i,
        {
            enc.push(0u8);
            i = i + 1;
            assert(enc@ =~= body + zeros(i as int));
        }
        proof {
            lemma_le_bytes_len(n as nat, 3);
            assert(enc@ =~= tl_bytes_encoding(value@));
        }
        self.put(enc.as_slice(), reserve);
    }

    /// Reads a TL string: a byte string that must be valid UTF-8.
    pub fn read_string(&mut self) -> (r: Result<String, TlBufferError>)
        ensures
            final(self)@.data == old(self)@.data,
            final(self)@.position == tl_bytes_read(old(self)@).1,
            result_is(r, tl_string_read(old(self)@)),
    {
        let bytes = self.read_bytes()?;
        match string_from_utf8(bytes) {
            Some(s) => Ok(s),
            None => Err(TlBufferError::BadData),
        }
    }

    /// Writes a TL string: its UTF-8 bytes as a byte string.
    pub fn write_string(&mut self, value: &String)
        requires
            writable(old(self)@, encode_utf8(value@).len() as int + 8),
        ensures
            final(self)@.data == written(
                old(self)@.data,
                old(self)@.position,
                tl_bytes_reserve(encode_utf8(value@).len() as int),
                tl_bytes_encoding(encode_utf8(value@)),
            ),
            final(self)@.position == old(self)@.position + tl_bytes_encoding(encode_utf8(value@)).len(),
    {
        self.write_bytes(value.as_str().as_bytes())
    }

    /// Reads a TL boolean; any constructor but the boolean ones is bad data.
    pub fn read_bool(&mut self) -> (r: Result<bool, TlBufferError>)
        ensures
            final(self)@.data == old(self)@.data,
            final(self)@.position == fixed_pos(old(self)@, 4),
            result_is(r, tl_bool_read(old(self)@)),
    {
        proof {
            if has_room(self@, 4) {
                lemma_le_int_range(window(self@, 4));
                lemma_pow256_values();
            }
        }
        match self.read_int()? {
            -1720552011 | 1072550713 => Ok(true),
            -1132882121 => Ok(false),
            _ => Err(TlBufferError::BadData),
        }
    }

    /// Writes a TL boolean as its constructor number.
    pub fn write_bool(&mut self, value: bool)
        requires
            writable(old(self)@, 4),
        ensures
            final(self)@.data == written(
                old(self)@.data,
                old(self)@.position,
                4,
                le_int_bytes(if value { bool_true_id() } else { bool_false_id() }, 4),
            ),
            final(self)@.position == old(self)@.position + 4,
    {
        self.write_int(
            if value {
                -1720552011
            } else {
                -1132882121
            },
        )
    }

    /// Writes `chunk` at the cursor after reserving `reserve` bytes, as every
    /// write of the buffer does, and moves the cursor past it.
    fn put(&mut self, chunk: &[u8], reserve: usize)
        requires
            0 <= old(self)@.position <= old(self)@.data.len(),
            old(self)@.data.len() + reserve <= isize::MAX,
            old(self)@.position + chunk@.len() <= isize::MAX,
        ensures
            final(self)@.data == written(old(self)@.data, old(self)@.position, reserve as int, chunk@),
            final(self)@.position == old(self)@.position + chunk@.len(),
    {
        proof {
            use_type_invariant(&*self);
        }
        let ghost old_data = self.data@;
        let len = self.data.len();
        let pos = self.position;
        let grown = if pos + reserve > len {
            len + reserve
        } else {
            len
        };
        let end = pos + chunk.len();
        let target = if grown >= end {
            grown
        } else {
            end
        };
        let mut data = Vec::new();
        std::mem::swap(&mut data, &mut self.data);
        while data.len() < target
            invariant
                len == old_data.len(),
                len <= data.len() <= target,
                target <= isize::MAX,
                forall|j: int| 0 <= j < len ==> data@[j] == old_data[j],
                forall|j: int| len <= j < data@.len() ==> data@[j] == 0u8,
            decreases target - data.len(),
        {
            data.push(0u8);
        }
        let mut i: usize = 0;
        while i < chunk.len()
            invariant
                len == old_data.len(),
                data@.len() == target,
                pos + chunk@.len() <= target,
                pos <= len,
                i <= chunk@.len(),
                forall|j: int|
                    0 <= j < target ==> data@[j] == (if pos <= j < pos + i {
                        chunk@[j - pos]
                    } else if j < len {
                        old_data[j]
                    } else {
                        0u8
                    }),
            decreases chunk@.len() - i,
        {
            data.set(pos + i, chunk[i]);
            i = i + 1;
        }
        assert(data@ =~= written(old_data, pos as int, reserve as int, chunk@));
        self.data = data;
        self.position = end;
    }
}

} // verus!
