//! The four-byte header that opens a circom file, once it has been read.

use vstd::prelude::*;
use vstd::utf8::{decode_utf8, valid_utf8};

verus! {

/// Why the header of a circom file was refused.
#[derive(Debug, Clone, PartialEq, Eq)]
pub enum InvalidHeaderError {
    /// Reading failed; the text says how.
    IoError(String),
    /// The header is not valid UTF-8.
    Utf8Error,
    /// The header is not the expected one: expected, then found.
    WrongHeader(String, String),
}

/// `std::str::from_utf8`, its text copied. Believed: it accepts exactly the
/// valid UTF-8 encodings, and the text is the one that the bytes encode.
#[verifier::external_body]
fn utf8_text(bytes: &[u8]) -> (r: Option<String>)
    ensures
        r.is_some() == valid_utf8(bytes@),
        r.is_some() ==> r.unwrap()@ == decode_utf8(bytes@),
{
    match std::str::from_utf8(bytes) {
        Ok(s) => Some(s.to_owned()),
        Err(_) => None,
    }
}

/// Holds the header bytes `found` against the header `expected`.
pub fn check_header(found: &[u8], expected: &str) -> (r: Result<(), InvalidHeaderError>)
    ensures
        match r {
            Ok(_) => valid_utf8(found@) && decode_utf8(found@) == expected@,
            Err(InvalidHeaderError::Utf8Error) => !valid_utf8(found@),
            Err(InvalidHeaderError::WrongHeader(a, b)) => valid_utf8(found@) && a@ == expected@ && b@
                == decode_utf8(found@) && a@ != b@,
            Err(InvalidHeaderError::IoError(_)) => false,
        },
{
    match utf8_text(found) {
        None => Err(InvalidHeaderError::Utf8Error),
        Some(text) => {
            let wanted: String = expected.to_owned();
            if text == wanted {
                Ok(())
            } else {
                Err(InvalidHeaderError::WrongHeader(wanted, text))
            }
        },
    }
}

} // verus!
