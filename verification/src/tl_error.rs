//! Errors of [`crate::bytes_buffer::BytesBuffer`] reads and of [`crate::tl_reader::TlReader`].
use vstd::prelude::*;

verus! {

/// Why reading a TL value failed.
#[derive(Debug)]
pub enum TlError {
    /// The buffer ended before the value did.
    NotEnoughData,
    /// No reader is registered for the constructor number.
    NoReader(i32),
}

impl TlError {
    /// The message that describes the error.
    pub fn message(&self) -> (m: String)
        ensures
            m@ == tl_error_message(*self),
    {
        match self {
            TlError::NotEnoughData => String::from_str("Not enough data"),
            TlError::NoReader(hash) => {
                let mut m = String::from_str("No reader for ");
                let digits = crate::text::decimal(*hash as i64);
                m.append(digits.as_str());
                m
            },
        }
    }
}

/// The message of an error: a fixed text, or the text and the constructor number.
pub open spec fn tl_error_message(e: TlError) -> Seq<char> {
    match e {
        TlError::NotEnoughData => "Not enough data"@,
        TlError::NoReader(hash) => "No reader for "@ + crate::text::decimal_spec(hash as int),
    }
}

/// `r` is `Ok` with a value whose view is `w`, or a shortage when `o` is `None`.
pub open spec fn tl_result_is<T: View>(r: Result<T, TlError>, o: Option<T::V>) -> bool {
    match o {
        Some(w) => r matches Ok(v) && v@ == w,
        None => r matches Err(TlError::NotEnoughData),
    }
}

} // verus!
