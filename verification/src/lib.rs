//! Type Language (TL) serialization buffers, schema compilers and MTProto helpers.
pub mod encoding;
pub mod tl_buffer;
pub mod buffer_model;
pub mod buffer_laws;
pub mod text;
pub mod tl_error;
pub mod bytes_buffer;
pub mod tl_object;
pub mod mtproto;
pub mod tl_reader;
pub mod tl_compiler;
pub mod object_compiler;
pub mod server;
