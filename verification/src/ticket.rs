//! Ticket prices of the pax classes.
use vstd::prelude::*;

verus! {

/// Economy, business and first class ticket prices, $.
#[derive(Debug, Clone, Copy, PartialEq, Eq, Structural)]
pub struct PaxTicket {
    pub y: u16,
    pub j: u16,
    pub f: u16,
}

} // verus!
