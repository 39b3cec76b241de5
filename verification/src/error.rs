//! The failure kinds a solving run can surface.

use vstd::prelude::*;

verus! {

/// Everything that can go wrong between reading a puzzle and writing
/// its solution.
#[derive(Debug, Clone, Copy, PartialEq, Eq, Structural)]
pub enum SolveError {
    /// Fewer than 81 meaningful (non-whitespace) characters were
    /// available from the input source.
    InputTooShort,
    /// The underlying input source could not be read.
    InputReadFailure,
    /// The output destination could not be created or written to.
    OutputWriteFailure,
    /// The search exhausted the whole reachable tree without finding
    /// an accepting grid.
    Unsolvable,
}

impl SolveError {
    /// A human-readable description of the failure.
    pub fn message(&self) -> (r: &'static str)
        ensures
            *self is InputTooShort ==> r@ == "Not enough input. The file was not long enough to construct a complete puzzle."@,
            *self is InputReadFailure ==> r@ == "Could not read input file."@,
            *self is OutputWriteFailure ==> r@ == "Could not open output file."@,
            *self is Unsolvable ==> r@ == "Couldn't solve puzzle."@,
    {
        match self {
            SolveError::InputTooShort => {
                "Not enough input. The file was not long enough to construct a complete puzzle."
            },
            SolveError::InputReadFailure => "Could not read input file.",
            SolveError::OutputWriteFailure => "Could not open output file.",
            SolveError::Unsolvable => "Couldn't solve puzzle.",
        }
    }
}

} // verus!
