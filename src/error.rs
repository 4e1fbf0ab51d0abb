use vstd::prelude::*;

verus! {

/// Why text could not be read into channels.
#[derive(Debug, Clone, Copy, PartialEq, Eq, Structural)]
pub enum TMFromStrError {
    /// The number of values is not a multiple of the channel count `col`.
    InvalidDimensions { col: usize },
    /// The token at zero-based position `index` is not a number.
    InvalidNumber { index: usize },
    /// Line `line` (one-based) holds `found` fields, not one per channel.
    WrongFieldCount { line: usize, found: usize },
    /// Field `field` (zero-based) of line `line` (one-based) is not a number.
    InvalidField { line: usize, field: usize },
}

} // verus!
