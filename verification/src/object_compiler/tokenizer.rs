//! Splits object schema text into tokens.
use vstd::prelude::*;
use crate::text::{chars_of, views};
use crate::tl_compiler::tokenizer::{tok_finish, tok_run, tokenize_chars};

verus! {

/// The tokens of `chars`: every character is stepped over and braces are
/// ordinary characters.
pub open spec fn tokenize_spec(chars: Seq<char>) -> Seq<Seq<char>> {
    tok_finish(tok_run(chars, chars.len(), false))
}

/// Splits schema text into tokens: names, and the special characters
/// `# = ; < > :` each on their own, with spaces and newlines between tokens
/// dropped.
pub fn tokenize(source: String) -> (r: Vec<String>)
    ensures
        views(r@) == tokenize_spec(source@),
{
    let source_chars = chars_of(source.as_str());
    tokenize_chars(&source_chars, source_chars.len(), false)
}

} // verus!
