//! MTProto objects that the object reader knows.
use vstd::prelude::*;
use crate::bytes_buffer::BytesBuffer;
use crate::buffer_model::{BufferView, window, has_room, writable};
use crate::encoding::{le_uint, le_int_bytes, signed_of, lemma_pow256_values};
use crate::tl_object::{TlObject, after_write};
use crate::tl_error::TlError;
use crate::tl_reader::{TlReader, TlReaderFunction};

verus! {

/// The constructor number of `req_pq_multi`, as the unsigned number the schema gives.
pub open spec fn req_pq_multi_id() -> u32 {
    0xbe7e8ef1
}

/// The same constructor number as the signed 32-bit value that goes on the wire.
pub open spec fn req_pq_multi_hash() -> i32 {
    -1099002127i32
}

/// `req_pq_multi#be7e8ef1 nonce:int128 = ResPQ`.
#[derive(Default, Debug, Clone, Copy, PartialEq, Eq)]
pub struct ReqPqMulti {
    pub hash: u32,
    pub nonce: u128,
}

/// The object that reading `req_pq_multi` yields from the buffer state `b`,
/// with the cursor after it: the nonce is the next sixteen bytes.
pub open spec fn req_pq_multi_read(b: BufferView) -> (Option<ReqPqMulti>, int) {
    if has_room(b, 16) {
        (
            Some(ReqPqMulti { hash: req_pq_multi_id(), nonce: le_uint(window(b, 16)) as u128 }),
            b.position + 16,
        )
    } else {
        (None, b.position)
    }
}

/// Reads the fields of `req_pq_multi` that follow its constructor number.
pub fn read_req_pq_multi(data: &mut BytesBuffer) -> (r: Option<ReqPqMulti>)
    ensures
        final(data)@.data == old(data)@.data,
        r == req_pq_multi_read(old(data)@).0,
        final(data)@.position == req_pq_multi_read(old(data)@).1,
{
    let mut obj = ReqPqMulti { hash: 0, nonce: 0 };
    obj.hash = 0xbe7e8ef1;
    if let Ok(nonce) = data.read_u128() {
        obj.nonce = nonce;
    } else {
        return None;
    }
    Some(obj)
}

/// Registers the readers of the objects in this module.
pub fn extend_reader(reader: &mut TlReader)
    ensures
        final(reader)@ == old(reader)@.push((req_pq_multi_hash(), TlReaderFunction::ReqPqMulti)),
{
    assert(req_pq_multi_hash() == req_pq_multi_id() - 0x1_0000_0000);
    reader.add_reader(-1099002127i32, TlReaderFunction::ReqPqMulti);
}

impl TlObject for ReqPqMulti {
    open spec fn hash_value(&self) -> i32 {
        req_pq_multi_hash()
    }

    open spec fn write_size(&self) -> int {
        20
    }

    open spec fn write_effect(&self, b: BufferView) -> BufferView {
        let b1 = after_write(b, le_int_bytes(req_pq_multi_hash() as int, 4));
        after_write(b1, le_int_bytes(signed_of(self.nonce as int, 16), 16))
    }

    fn hash(&self) -> (h: i32) {
        -1099002127i32
    }

    fn write(&self, data: &mut BytesBuffer) {
        proof {
            lemma_pow256_values();
        }
        let ghost b = data@;
        data.write_int(-1099002127i32);
        proof {
            crate::buffer_model::lemma_written_len(b.data, b.position, 4, le_int_bytes(-1099002127, 4));
            crate::encoding::lemma_le_bytes_len(crate::encoding::unsigned_of(-1099002127, 4), 4);
        }
        let v: i128 = if self.nonce >= 0x8000_0000_0000_0000_0000_0000_0000_0000 {
            ((self.nonce - 0x8000_0000_0000_0000_0000_0000_0000_0000) as i128) + i128::MIN
        } else {
            self.nonce as i128
        };
        assert(v as int == signed_of(self.nonce as int, 16));
        proof {
            crate::encoding::lemma_le_bytes_len(crate::encoding::unsigned_of(v as int, 16), 16);
        }
        data.write_int128(v);
    }
}

} // verus!
