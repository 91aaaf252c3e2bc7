use vstd::prelude::*;

verus! {

/// How a value compares with zero.
///
/// `Zero` stands for every value that is neither above nor below zero: zero
/// itself, and a value that is not a number.
#[derive(Clone, Copy, Debug, PartialEq, Eq, Structural)]
pub enum Sign {
    Negative,
    Zero,
    Positive,
}

impl Sign {
    /// The sign as an integer: -1, 0 or 1.
    pub open spec fn rank(self) -> int {
        match self {
            Sign::Negative => -1,
            Sign::Zero => 0,
            Sign::Positive => 1,
        }
    }

    /// Builds the sign from the two strict comparisons with zero. A value that
    /// claims to be both above and below zero is taken as above.
    pub fn from_comparisons(above: bool, below: bool) -> (s: Sign)
        ensures
            above ==> s == Sign::Positive,
            !above && below ==> s == Sign::Negative,
            !above && !below ==> s == Sign::Zero,
    {
        if above {
            Sign::Positive
        } else if below {
            Sign::Negative
        } else {
            Sign::Zero
        }
    }

    /// Whether the value is above zero.
    pub fn is_positive(&self) -> (b: bool)
        ensures
            b == (*self == Sign::Positive),
    {
        matches!(self, Sign::Positive)
    }

    /// Whether the value is below zero.
    pub fn is_negative(&self) -> (b: bool)
        ensures
            b == (*self == Sign::Negative),
    {
        matches!(self, Sign::Negative)
    }
}

} // verus!
