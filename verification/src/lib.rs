//! A minimal, verified parser for IGC flight-recorder files.
//!
//! The low level record parser mirrors the raw format of an IGC file closely.
//! Every decoder returns a `Result` and is proved to match a mathematical
//! description of the format; the canonical formatters are proved to be exact
//! inverses of the decoders on well-formed values.

pub mod records;
pub mod util;
