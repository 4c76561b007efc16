//! What can go wrong before a simulation starts.

use vstd::prelude::*;

verus! {

/// Why a piece of scenario text was refused.
#[derive(Copy, Clone, Debug, PartialEq, Eq, Structural)]
pub enum ParseErrorKind {
    /// The text holds no non-empty line, so there is no grid line.
    NoGrid,
    /// The grid line is not exactly two words, or one of them is no integer
    /// of eight bits.
    BadGrid,
    /// A start line does not have exactly three words.
    BadStart,
    /// A start coordinate is no integer of eight bits.
    BadCoordinate,
    /// The heading is not one of `N`, `E`, `S`, `W`.
    BadOrientation,
    /// A start line is the last line: its command line is missing.
    NoCommands,
    /// A command character is not one of `F`, `L`, `R`.
    BadCommand(char),
}

/// A refusal of scenario text, with the place where it was found.
#[derive(Copy, Clone, Debug, PartialEq, Eq, Structural)]
pub struct ParseError {
    /// Zero-based index of the offending line.  For a line that is missing,
    /// the index at which it was looked for.
    pub line: usize,
    pub kind: ParseErrorKind,
}

/// Why a parsed scenario cannot be set up.
#[derive(Copy, Clone, Debug, PartialEq, Eq, Structural)]
pub enum ConstructionError {
    /// A grid bound is larger than the grid may be.
    BadDimensions { max_x: i8, max_y: i8 },
    /// A robot starts beyond the far corner of the grid.
    BadStart { x: i8, y: i8 },
}

/// Any failure of a whole run.
#[derive(Copy, Clone, Debug, PartialEq, Eq, Structural)]
pub enum Error {
    Parse(ParseError),
    Construction(ConstructionError),
}

} // verus!
