//! The ways in which decoding fails.

use vstd::prelude::*;

verus! {

/// Why a text was refused.
#[derive(Clone, Copy, Debug, PartialEq, Eq, Structural)]
pub enum DecodeError {
    /// The text has fewer symbols than a header.
    TooShort,
    /// A character of the text is no symbol of the alphabet.
    InvalidSymbol,
    /// The flag symbol of the header stands for a value other than 0 and 1.
    MalformedHeader,
    /// The digest of the recovered bytes is not the one that the header carries.
    ChecksumMismatch,
}

} // verus!
