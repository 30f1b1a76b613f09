use vstd::prelude::*;

verus! {

/// The domain rule that a lexically well-formed input broke.
#[derive(Debug, Clone, Copy, PartialEq, Eq, Structural)]
pub enum Violation {
    /// Both `">"` and `">="` were given for the lower bound.
    BothLowerBounds,
    /// Both `"<"` and `"<="` were given for the upper bound.
    BothUpperBounds,
    /// A camera matrix entry that must be zero or one is not; row and column.
    MatrixCell(usize, usize),
    /// A string that must not be empty is empty.
    EmptyString,
}

/// Failure of a codec.
#[derive(Debug, Clone, PartialEq, Eq)]
pub enum CodecError {
    /// The text does not match the grammar; it carries the offending text.
    Format(String),
    /// The input is well formed but breaks a domain rule.
    Validation(Violation),
}

} // verus!
