//! The decision a strategy takes at a bar.

use vstd::prelude::*;

verus! {

/// What a strategy asks for at a bar: to be long, to be short, or to hold
/// nothing.
#[allow(clippy::upper_case_acronyms)]
#[derive(Clone, Copy, Debug, PartialEq, Eq, Structural)]
pub enum Order {
    /// Hold a long position.
    BUY,
    /// Hold a short position.
    SHORTSELL,
    /// Hold no position.
    NULL,
}

impl Order {
    /// The order that takes the other side: long for short and short for
    /// long; holding nothing has no other side.
    pub open spec fn inverse(self) -> Order {
        match self {
            Order::BUY => Order::SHORTSELL,
            Order::SHORTSELL => Order::BUY,
            Order::NULL => Order::NULL,
        }
    }

    /// The order's name as it is written in reports.
    pub open spec fn name(self) -> Seq<char> {
        match self {
            Order::BUY => "BUY"@,
            Order::SHORTSELL => "SHORTSELL"@,
            Order::NULL => "NULL"@,
        }
    }

    /// See [`Order::inverse`].
    pub fn inverted(self) -> (other: Order)
        ensures
            other == self.inverse(),
    {
        match self {
            Order::BUY => Order::SHORTSELL,
            Order::SHORTSELL => Order::BUY,
            Order::NULL => Order::NULL,
        }
    }

    /// The order's name as text.
    pub fn to_string(&self) -> (text: String)
        ensures
            text@ == self.name(),
    {
        match self {
            Order::BUY => "BUY".to_string(),
            Order::SHORTSELL => "SHORTSELL".to_string(),
            Order::NULL => "NULL".to_string(),
        }
    }
}

} // verus!
