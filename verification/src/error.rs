//! The ways in which encoding and decoding fail.

use vstd::prelude::*;

verus! {

/// Why a header could not be serialized.
#[derive(Clone, Copy, Debug, PartialEq, Eq)]
pub enum EncodeError {
    /// A text is longer than a text pointer can describe: its byte length,
    /// with the terminator, does not fit the pointer's element count.
    TextTooLong,
}

/// Why a buffer was rejected. Validation runs top-down, so a buffer with
/// several defects is reported under the first of these that applies.
#[derive(Clone, Copy, Debug, PartialEq, Eq)]
pub enum DecodeError {
    /// The segment table is missing, truncated or oversized, declares no
    /// segment or too many, or declares more words than the buffer holds.
    Framing,
    /// The root pointer or a text pointer does not lead to a region of the
    /// expected shape inside the first segment.
    BoundsViolation,
    /// A text region does not hold valid UTF-8 followed by a NUL byte.
    Encoding,
}

} // verus!
