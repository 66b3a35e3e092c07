//! The states of a one-time event.
//!
//! The sender's transitions are a plain increment: if nobody is listening,
//! `EVENT_BOUND + 1 = EVENT_SET`; if a receiver is listening,
//! `EVENT_AWAITING + 1 = EVENT_SIGNALING`.
use vstd::prelude::*;

verus! {

/// The event has not been bound to a sender or receiver.
pub const EVENT_UNBOUND: u8 = 0;

/// Both sender and receiver have been created but have not done anything yet.
pub const EVENT_BOUND: u8 = 1;

/// The sender has set the value of the event.
pub const EVENT_SET: u8 = 2;

/// The receiver is waiting for the sender to set the value.
pub const EVENT_AWAITING: u8 = 3;

/// The sender is taking the waker of the receiver, which may not touch the event meanwhile.
pub const EVENT_SIGNALING: u8 = 4;

/// An endpoint was dropped without setting the event or picking up its value.
pub const EVENT_DISCONNECTED: u8 = 5;

/// Both endpoints are done with an event whose value was not wanted.
pub const EVENT_CONSUMED: u8 = 6;

} // verus!
