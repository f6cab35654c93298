//! Places in the source text.

use vstd::prelude::*;

verus! {

/// A line and a column, both counted from one.
#[derive(Clone, Copy, Debug, PartialEq, Eq, Structural)]
pub struct SrcLoc {
    pub line: u32,
    pub col: u32,
}

impl SrcLoc {
    /// The place of the first byte of a text.
    pub fn start() -> (r: Self)
        ensures
            r.line == 1,
            r.col == 1,
    {
        Self { line: 1, col: 1 }
    }
}

} // verus!
