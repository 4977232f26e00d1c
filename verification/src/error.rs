//! The ways in which an operation of the codec fails.

use vstd::prelude::*;

verus! {

/// Why a codec or position operation failed.
#[derive(Debug, Clone, Copy, PartialEq, Eq, Structural)]
pub enum CodecError {
    /// Fewer bytes were available, or accepted, than the operation needed, or a move of the
    /// position landed short of its target.
    Truncated,
    /// The bytes read are not valid UTF-8.
    InvalidEncoding,
    /// A parameter lies outside the operation's domain.
    InvalidArgument,
    /// The target position does not fit the range of positions.
    PositionOverflow,
}

} // verus!
