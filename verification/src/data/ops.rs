//! Operator tags carried by tokens and by expression nodes.

use vstd::prelude::*;

verus! {

/// The arithmetic operators `*`, `/`, `+` and `-`.
#[derive(Clone, Copy, Debug, PartialEq, Eq, Structural)]
pub enum ArithmeticOperation {
    Multiply,
    Divide,
    Add,
    Subtract,
}

/// The comparison operators `==`, `!=`, `>`, `>=`, `<` and `<=`.
#[derive(Clone, Copy, Debug, PartialEq, Eq, Structural)]
pub enum ComparisonOperation {
    IsEqual,
    IsNotEqual,
    IsGreater,
    IsGreaterOrEqual,
    IsLess,
    IsLessOrEqual,
}

/// The boolean operators `and` and `or`.
#[derive(Clone, Copy, Debug, PartialEq, Eq, Structural)]
pub enum BooleanOperation {
    And,
    Or,
}

} // verus!
