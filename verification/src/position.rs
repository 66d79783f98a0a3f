//! Positions and ranges in a document, in lines and columns.

use vstd::prelude::*;

verus! {

/// A zero-based line and column.
#[derive(Clone, Copy, Debug, PartialEq, Eq, Structural)]
pub struct Position {
    pub line: u32,
    pub character: u32,
}

/// The text between two positions, the second one excluded.
#[derive(Clone, Copy, Debug, PartialEq, Eq, Structural)]
pub struct Range {
    pub start: Position,
    pub end: Position,
}

/// A range in a document that a URI identifies.
#[derive(Clone, Debug)]
pub struct Location {
    pub uri: String,
    pub range: Range,
}

impl Position {
    /// Whether `self` lies before `other`, or at it.
    pub open spec fn le(self, other: Position) -> bool {
        self.line < other.line || (self.line == other.line && self.character <= other.character)
    }

    /// Compares two positions, by line and then by column.
    pub fn precedes_or_equals(&self, other: &Position) -> (r: bool)
        ensures
            r == self.le(*other),
    {
        self.line < other.line || (self.line == other.line && self.character <= other.character)
    }
}

/// Narrows a machine-sized number to 32 bits; a number that does not fit
/// becomes the largest 32-bit number.
pub open spec fn clamp_u32(x: int) -> u32 {
    if x <= u32::MAX {
        x as u32
    } else {
        u32::MAX
    }
}

/// Narrows a `usize` as [`clamp_u32`] says.
pub fn to_u32(x: usize) -> (r: u32)
    ensures
        r == clamp_u32(x as int),
{
    if x <= u32::MAX as usize {
        x as u32
    } else {
        u32::MAX
    }
}

} // verus!
