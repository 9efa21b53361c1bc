//! Unencrypted exchanges of a connection that serves `TlObject`s: a request
//! frame starts with a 20-byte header that is skipped, a response frame with
//! 20 zero bytes; and the choice of the handler for a request.
use vstd::prelude::*;
use crate::buffer_model::{BufferView, zeros, writable};
use crate::bytes_buffer::BytesBuffer;
use crate::tl_error::TlError;
use crate::tl_object::TlObject;
use crate::tl_reader::{TlReader, TlValue, read_outcome};

verus! {

/// What a connection of the object server is doing: it only exchanges an
/// authorization key.
#[derive(Debug, Clone, Copy, PartialEq, Eq, Structural)]
pub enum SessionState {
    AuthKey,
}

/// Reads the object of an unencrypted request frame with the readers of `reader`.
pub fn read_plain_request(reader: &TlReader, raw: Vec<u8>) -> (r: Result<TlValue, TlError>)
    requires
        raw@.len() <= isize::MAX,
    ensures
        match read_outcome(reader@, BufferView { data: raw@, position: 20 }).0 {
            Ok(v) => r == Ok::<TlValue, TlError>(v),
            Err(None) => r matches Err(TlError::NotEnoughData),
            Err(Some(h)) => r matches Err(TlError::NoReader(x)) && x == h,
        },
{
    let mut data = BytesBuffer::new(raw);
    data.seek(20);
    reader.read(&mut data)
}

/// The frame of an unencrypted response: 20 zero bytes, then the object.
pub fn write_plain_response<T: TlObject>(obj: &T) -> (r: Vec<u8>)
    requires
        writable(BufferView { data: zeros(20), position: 20 }, obj.write_size()),
    ensures
        r@ == obj.write_effect(BufferView { data: zeros(20), position: 20 }).data,
{
    let mut head: Vec<u8> = Vec::new();
    let mut i: usize = 0;
    while i < 20
        invariant
            i <= 20,
            head@ == zeros(i as int),
        decreases 20 - i,
    {
        head.push(0);
        i = i + 1;
        assert(head@ =~= zeros(i as int));
    }
    let mut data = BytesBuffer::new(head);
    data.seek(20);
    obj.write(&mut data);
    let mut r: Vec<u8> = Vec::new();
    crate::encoding::append_all(&mut r, data.data());
    r
}

/// The position of the first handler registered for `hash`, if any.
pub fn find_handler(hashes: &Vec<i32>, hash: i32) -> (r: Option<usize>)
    ensures
        match r {
            Some(i) => i < hashes@.len() && hashes@[i as int] == hash && forall|j: int|
                0 <= j < i ==> hashes@[j] != hash,
            None => !hashes@.contains(hash),
        },
{
    let mut i: usize = 0;
    while i < hashes.len()
        invariant
            i <= hashes@.len(),
            forall|j: int| 0 <= j < i ==> hashes@[j] != hash,
        decreases hashes@.len() - i,
    {
        if hashes[i] == hash {
            return Some(i);
        }
        i = i + 1;
    }
    None
}

} // verus!
