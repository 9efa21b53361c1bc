//! The compiler of the object schema: generates structs implementing
//! `TlObject` with their readers, over `BytesBuffer`.
pub mod tokenizer;
pub mod parser;
pub mod compiler;
pub mod pipeline;
pub mod type_laws;
