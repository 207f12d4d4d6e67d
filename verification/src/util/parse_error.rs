//! The error kinds shared by every decoder.

use vstd::prelude::*;

verus! {

/// Enumeration of different errors that can occur during parsing.
#[derive(Clone, Copy, Debug, PartialEq, Eq, Structural)]
pub enum ParseError {
    /// Structurally malformed input: wrong length, unparsable digits, or an
    /// unexpected delimiter.
    SyntaxError,
    /// A window expected to hold single-byte text contains a wider character.
    NonASCIICharacters,
    /// A numeric field lies outside its declared domain.
    NumberOutOfRange,
    /// An extension range references the mandatory region or ends before it
    /// starts.
    BadExtension,
    /// An extension range lies beyond the actual record length.
    MissingExtension,
}

} // verus!
