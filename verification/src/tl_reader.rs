//! Finds the reader registered for a constructor number and reads the object.
use vstd::prelude::*;
use crate::bytes_buffer::{BytesBuffer, fixed_value};
use crate::buffer_model::BufferView;
use crate::tl_error::TlError;
use crate::mtproto::{ReqPqMulti, read_req_pq_multi, req_pq_multi_read, extend_reader, req_pq_multi_id,
    req_pq_multi_hash};
use crate::tl_object::TlObject;
use crate::buffer_model::{writable, written, window};
use crate::encoding::{le_int_bytes, signed_of, unsigned_of, le_uint, pow256};

verus! {

/// The readers that can be registered: one per object kind this crate reads.
#[derive(Debug, Clone, Copy, PartialEq, Eq)]
pub enum TlReaderFunction {
    ReqPqMulti,
}

/// An object read by a [`TlReader`].
#[derive(Debug, Clone, Copy, PartialEq, Eq)]
pub enum TlValue {
    ReqPqMulti(ReqPqMulti),
}

/// What a reader yields from the buffer state `b`, with the cursor after it.
pub open spec fn reader_outcome(f: TlReaderFunction, b: BufferView) -> (Option<TlValue>, int) {
    match f {
        TlReaderFunction::ReqPqMulti => {
            let (o, p) = req_pq_multi_read(b);
            (
                match o {
                    Some(obj) => Some(TlValue::ReqPqMulti(obj)),
                    None => None,
                },
                p,
            )
        },
    }
}

/// The first reader registered for `hash`.
pub open spec fn first_reader(readers: Seq<(i32, TlReaderFunction)>, hash: int) -> Option<TlReaderFunction>
    decreases readers.len(),
{
    if readers.len() == 0 {
        None
    } else if readers[0].0 == hash {
        Some(readers[0].1)
    } else {
        first_reader(readers.drop_first(), hash)
    }
}

/// A table of readers keyed by constructor number.
pub struct TlReader {
    readers: Vec<(i32, TlReaderFunction)>,
}

impl View for TlReader {
    type V = Seq<(i32, TlReaderFunction)>;

    closed spec fn view(&self) -> Seq<(i32, TlReaderFunction)> {
        self.readers@
    }
}

impl TlReaderFunction {
    /// Runs the reader on the buffer.
    pub fn call(&self, data: &mut BytesBuffer) -> (r: Result<TlValue, TlError>)
        ensures
            final(data)@.data == old(data)@.data,
            final(data)@.position == reader_outcome(*self, old(data)@).1,
            match reader_outcome(*self, old(data)@).0 {
                Some(v) => r == Ok::<TlValue, TlError>(v),
                None => r matches Err(TlError::NotEnoughData),
            },
    {
        match self {
            TlReaderFunction::ReqPqMulti => match read_req_pq_multi(data) {
                Some(obj) => Ok(TlValue::ReqPqMulti(obj)),
                None => Err(TlError::NotEnoughData),
            },
        }
    }
}

/// The outcome of `read` on the buffer state `b`: a missing constructor
/// number, an unknown one, or what the first reader for it yields.
pub open spec fn read_outcome(readers: Seq<(i32, TlReaderFunction)>, b: BufferView) -> (Result<TlValue, Option<i32>>, int) {
    match fixed_value(b, 4) {
        None => (Err(None), b.position),
        Some(h) => {
            let b1 = BufferView { data: b.data, position: b.position + 4 };
            match first_reader(readers, h) {
                None => (Err(Some(h as i32)), b1.position),
                Some(f) => match reader_outcome(f, b1).0 {
                    Some(v) => (Ok(v), reader_outcome(f, b1).1),
                    None => (Err(None), reader_outcome(f, b1).1),
                },
            }
        },
    }
}

impl TlReader {
    /// A reader table with the readers of every object this crate knows.
    pub fn new() -> (s: TlReader)
        ensures
            s@ == seq![(crate::mtproto::req_pq_multi_hash(), TlReaderFunction::ReqPqMulti)],
    {
        let mut s = TlReader { readers: Vec::new() };
        extend_reader(&mut s);
        s
    }

    /// Reads a constructor number and then the object with the first reader
    /// registered for it.
    pub fn read(&self, data: &mut BytesBuffer) -> (r: Result<TlValue, TlError>)
        ensures
            final(data)@.data == old(data)@.data,
            final(data)@.position == read_outcome(self@, old(data)@).1,
            match read_outcome(self@, old(data)@).0 {
                Ok(v) => r == Ok::<TlValue, TlError>(v),
                Err(None) => r matches Err(TlError::NotEnoughData),
                Err(Some(h)) => r matches Err(TlError::NoReader(x)) && x == h,
            },
    {
        let ghost b = data@;
        proof {
            if crate::buffer_model::has_room(b, 4) {
                crate::encoding::lemma_le_int_range(crate::buffer_model::window(b, 4));
                crate::encoding::lemma_pow256_values();
            }
        }
        let hash = data.read_int()?;
        let ghost b1 = data@;
        assert(fixed_value(b, 4) == Some(hash as int));
        assert(self.readers@.skip(0) =~= self.readers@);
        let mut i: usize = 0;
        while i < self.readers.len()
            invariant
                i <= self.readers@.len(),
                data@ == b1,
                old(data)@ == b,
                b1.data == b.data,
                b1.position == b.position + 4,
                fixed_value(b, 4) == Some(hash as int),
                first_reader(self.readers@, hash as int) == first_reader(self.readers@.skip(i as int), hash as int),
            decreases self.readers@.len() - i,
        {
            assert(self.readers@.skip(i as int).drop_first() =~= self.readers@.skip(i + 1));
            if self.readers[i].0 == hash {
                return self.readers[i].1.call(data);
            }
            i = i + 1;
        }
        Err(TlError::NoReader(hash))
    }

    /// Registers `reader` for the constructor number `hash`, after the readers
    /// already registered.
    pub fn add_reader(&mut self, hash: i32, reader: TlReaderFunction)
        ensures
            final(self)@ == old(self)@.push((hash, reader)),
    {
        self.readers.push((hash, reader));
    }
}


/// An object written at a position reads back from that position with the
/// readers a new [`TlReader`] has, and the cursor ends just past it.
pub proof fn law_req_pq_multi_roundtrip(b: BufferView, obj: ReqPqMulti)
    requires
        writable(b, 20),
        obj.hash == req_pq_multi_id(),
    ensures
        read_outcome(
            seq![(req_pq_multi_hash(), TlReaderFunction::ReqPqMulti)],
            BufferView { data: obj.write_effect(b).data, position: b.position },
        ) == (Ok::<TlValue, Option<i32>>(TlValue::ReqPqMulti(obj)), b.position + 20),
{
    let p = b.position;
    let enc4 = le_int_bytes(req_pq_multi_hash() as int, 4);
    let enc16 = le_int_bytes(signed_of(obj.nonce as int, 16), 16);
    crate::encoding::lemma_pow256_values();
    reveal_with_fuel(pow256, 17);
    crate::encoding::lemma_le_int_roundtrip(req_pq_multi_hash() as int, 4);
    let d1 = written(b.data, p, 4, enc4);
    crate::buffer_laws::lemma_written_window(b.data, p, 4, enc4);
    let d2 = written(d1, p + 4, 16, enc16);
    assert(signed_of(obj.nonce as int, 16) >= -(pow256(16) / 2) && signed_of(obj.nonce as int, 16) < pow256(16) / 2);
    crate::encoding::lemma_le_int_roundtrip(signed_of(obj.nonce as int, 16), 16);
    crate::buffer_laws::lemma_written_window(d1, p + 4, 16, enc16);
    crate::buffer_laws::law_write_keeps_prefix(d1, p + 4, 16, enc16);
    assert(d2.subrange(p, p + 4) =~= d1.subrange(p, p + 4)) by {
        assert forall|k: int| 0 <= k < 4 implies #[trigger] d2.subrange(p, p + 4)[k] == d1.subrange(p, p + 4)[k] by {
            assert(d2.subrange(0, p + 4)[p + k] == d1.subrange(0, p + 4)[p + k]);
        }
    }
    let start = BufferView { data: d2, position: p };
    assert(window(start, 4) == enc4);
    let b1 = BufferView { data: d2, position: p + 4 };
    assert(window(b1, 16) == enc16);
    crate::encoding::lemma_le_roundtrip(unsigned_of(signed_of(obj.nonce as int, 16), 16), 16);
    assert(unsigned_of(signed_of(obj.nonce as int, 16), 16) == obj.nonce as int);
    assert(first_reader(seq![(req_pq_multi_hash(), TlReaderFunction::ReqPqMulti)], req_pq_multi_hash() as int)
        == Some(TlReaderFunction::ReqPqMulti));
}

} // verus!
