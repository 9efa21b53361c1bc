//! The TL schema compiler: tokenizer, parser and Rust code generator.
pub mod tokenizer;
pub mod parser;
pub mod compiler;
pub mod pipeline;
pub mod type_laws;
