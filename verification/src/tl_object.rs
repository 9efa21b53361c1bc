//! Objects that know their constructor number and how to write themselves.
use vstd::prelude::*;
use crate::bytes_buffer::BytesBuffer;
use crate::buffer_model::{BufferView, written, writable};

verus! {

/// The buffer state after `chunk` is written at the cursor of `b`, reserving
/// exactly its length.
pub open spec fn after_write(b: BufferView, chunk: Seq<u8>) -> BufferView {
    BufferView {
        data: written(b.data, b.position, chunk.len() as int, chunk),
        position: b.position + chunk.len(),
    }
}

/// A TL object: it has a constructor number and writes its TL encoding.
pub trait TlObject {
    /// The constructor number.
    spec fn hash_value(&self) -> i32;

    /// How many bytes a write may add to the buffer.
    spec fn write_size(&self) -> int;

    /// The buffer after the object is written at its cursor.
    spec fn write_effect(&self, b: BufferView) -> BufferView;

    /// The constructor number.
    fn hash(&self) -> (h: i32)
        ensures
            h == self.hash_value(),
    ;

    /// Writes the constructor number and the fields.
    fn write(&self, data: &mut BytesBuffer)
        requires
            writable(old(data)@, self.write_size()),
        ensures
            final(data)@ == self.write_effect(old(data)@),
    ;
}

} // verus!
