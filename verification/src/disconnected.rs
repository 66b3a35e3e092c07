//! The error of a pair of endpoints of which one has gone.
use vstd::prelude::*;

verus! {

/// Indicates that a sender-receiver pair has disconnected.
#[derive(Clone, Copy, Debug, PartialEq, Eq, Structural)]
pub struct Disconnected;

impl Disconnected {
    /// What the error says.
    pub fn message(&self) -> (r: &'static str)
        ensures
            r@ == "sender-receiver pair has disconnected"@,
    {
        "sender-receiver pair has disconnected"
    }
}

} // verus!
