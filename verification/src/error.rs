//! Errors of decoding.

use vstd::prelude::*;

verus! {

/// Why decoding stopped. Every one of these ends the whole decode; effects
/// recorded before it stay recorded.
#[derive(Debug, Clone, Copy, PartialEq, Eq, Structural)]
pub enum DecodeError {
    /// A field or a payload needs more bytes than the source holds.
    TruncatedInput,
    /// A name is not valid UTF-8.
    InvalidEncoding,
    /// The archive does not begin with the magic tag.
    BadMagicTag,
}

} // verus!
