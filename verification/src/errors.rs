//! The ways in which a backtest can be refused.

use vstd::prelude::*;

verus! {

/// Why a simulation, or a series derived from one, could not be produced.
/// No partial result accompanies an error.
#[derive(Clone, Copy, Debug, PartialEq, Eq, Structural)]
pub enum Error {
    /// Two series that must be aligned bar for bar differ in length.
    ShapeMismatch,
    /// The opening price of a bar at which a trade is executed is zero or
    /// negative.
    NonPositivePrice,
    /// A net worth, a position, a balance or a derived amount does not fit
    /// in an `i64`.
    Overflow,
    /// The commission rate is not below `RATE_SCALE`, that is below 100%.
    InvalidCommissionRate,
    /// The time of a bar is outside the calendar.
    InvalidTimestamp,
}

impl Error {
    /// A short description of the error, for reports.
    pub fn message(&self) -> (text: &'static str)
        ensures
            text@ == match *self {
                Error::ShapeMismatch => "series differ in length"@,
                Error::NonPositivePrice => "open price is not positive at an execution bar"@,
                Error::Overflow => "amount exceeds the representable range"@,
                Error::InvalidCommissionRate => "commission rate is outside [0, 1)"@,
                Error::InvalidTimestamp => "time of a bar is outside the calendar"@,
            },
    {
        match self {
            Error::ShapeMismatch => "series differ in length",
            Error::NonPositivePrice => "open price is not positive at an execution bar",
            Error::Overflow => "amount exceeds the representable range",
            Error::InvalidCommissionRate => "commission rate is outside [0, 1)",
            Error::InvalidTimestamp => "time of a bar is outside the calendar",
        }
    }
}

} // verus!
