//! Names of entries: byte strings in the archive, UTF-8 text outside it.

use crate::error::DecodeError;
use vstd::prelude::*;
use vstd::utf8::{decode_utf8, valid_utf8};

verus! {

/// The error of `String::from_utf8`. It is passed on, never looked into.
#[verifier::external_type_specification]
#[verifier::external_body]
pub struct ExFromUtf8Error(std::string::FromUtf8Error);

/// `String::from_utf8` of the standard library. Trusted, not proved: it
/// accepts exactly the byte strings that are valid UTF-8, and the string it
/// returns holds the characters that those bytes encode.
pub assume_specification[ String::from_utf8 ](vec: Vec<u8>) -> (r: Result<
    String,
    std::string::FromUtf8Error,
>)
    ensures
        r is Ok <==> valid_utf8(vec@),
        r is Ok ==> r->Ok_0@ == decode_utf8(vec@),
;

/// Decodes the bytes of a name field.
pub fn decode_name(bytes: Vec<u8>) -> (r: Result<String, DecodeError>)
    ensures
        valid_utf8(bytes@) ==> r is Ok && r->Ok_0@ == decode_utf8(bytes@),
        !valid_utf8(bytes@) ==> r == Err::<String, DecodeError>(DecodeError::InvalidEncoding),
{
    match String::from_utf8(bytes) {
        Ok(name) => Ok(name),
        Err(_) => Err(DecodeError::InvalidEncoding),
    }
}

} // verus!
