//! Identifier generation and parsing, backed by the uuid crate. File ids
//! are 128-bit values drawn at creation and never reused.

use crate::error::FileError;
use vstd::prelude::*;
use vstd::string::StringExecFns;

verus! {

/// Relies on uuid::Uuid::new_v4 and Uuid::as_u128: a freshly drawn random
/// 128-bit identifier. Nothing is promised of the value.
#[verifier::external_body]
pub fn new_file_id() -> u128 {
    uuid::Uuid::new_v4().as_u128()
}

/// The 128-bit value a textual UUID denotes, or None where the text is not
/// a UUID; it depends on the characters alone.
pub uninterp spec fn uuid_of_str(s: Seq<char>) -> Option<u128>;

/// Relies on uuid::Uuid::parse_str and Uuid::as_u128: parsing is a pure
/// function of the input text.
#[verifier::external_body]
pub fn parse_uuid(s: &str) -> (r: Option<u128>)
    ensures
        r == uuid_of_str(s@),
{
    match uuid::Uuid::parse_str(s) {
        Ok(u) => Some(u.as_u128()),
        Err(_) => None,
    }
}

/// Parses a client-supplied file id from its textual UUID form; text
/// that is no UUID is rejected with InvalidUuid carrying the text.
pub fn parse_file_id(s: &str) -> (r: Result<u128, FileError>)
    ensures
        match r {
            Ok(id) => uuid_of_str(s@) == Some(id),
            Err(e) => uuid_of_str(s@) is None && (e matches FileError::InvalidUuid(t) && t@
                == s@),
        },
{
    match parse_uuid(s) {
        Some(id) => Ok(id),
        None => Err(FileError::InvalidUuid(s.to_owned())),
    }
}

/// A character that can appear in the hyphenated lower-case UUID form.
pub open spec fn is_uuid_char(c: char) -> bool {
    c == '-' || ('0' <= c && c <= '9') || ('a' <= c && c <= 'f')
}

/// Relies on uuid::Uuid::new_v4 and its Display impl: a fresh identifier
/// rendered in the hyphenated lower-case hexadecimal form, 36 characters.
#[verifier::external_body]
pub fn new_uuid_string() -> (r: String)
    ensures
        r@.len() == 36,
        forall|i: int| 0 <= i < r@.len() ==> is_uuid_char(#[trigger] r@[i]),
{
    uuid::Uuid::new_v4().to_string()
}

} // verus!
