//! Async event primitives.
//!
//! * **Manual-reset events** ([`ManualResetEvent`], [`LocalManualResetEvent`]): once set, they
//!   release all current and future awaiters until explicitly reset.
//! * **Auto-reset events** ([`AutoResetEvent`], [`LocalAutoResetEvent`]): each signal releases at
//!   most one awaiter and is consumed by it.
//! * **One-time events** ([`OnceEvent`], [`LocalOnceEvent`]) and pools of them: a sender passes one
//!   value to a receiver.
//! * An async [`Mutex`] that serves its waiters first come, first served.
//!
//! A type of this crate is the state of its primitive. Its operations take the state by `&mut`, so
//! that whoever shares it does so with a lock or a cell of their choice, and hand out the wakers
//! that are to be woken, so that they are woken when the state is no longer borrowed and may use it
//! freely. A future or an endpoint is handed the state that it belongs to with every call.
//!
//! What the states are and what the operations do to them is said in the `*_rules` modules, together
//! with the laws that hold of them. The [`runs`] module states what holds of a whole use of a
//! primitive: that one in a container behaves as one of its own, that waiters are served first come,
//! first served, and that whoever is released is woken by the waker of its latest poll.
pub mod auto;
pub mod auto_reset_event;
pub mod auto_rules;
pub mod auto_state;
pub mod disconnected;
pub mod door_rules;
pub mod door_state;
pub mod futures;
pub mod local_auto;
pub mod local_auto_reset_event;
pub mod local_manual;
pub mod local_manual_reset_event;
pub mod lock_rules;
pub mod manual;
pub mod manual_reset_event;
pub mod manual_rules;
pub mod mutex;
pub mod once;
pub mod runs;
pub mod waiters;

pub use auto::{AutoResetEvent, EmbeddedAutoResetEvent, EmbeddedAutoResetEventRef};
pub use disconnected::Disconnected;
pub use local_auto::{
    EmbeddedLocalAutoResetEvent, EmbeddedLocalAutoResetEventRef, LocalAutoResetEvent,
};
pub use local_manual::{
    EmbeddedLocalManualResetEvent, EmbeddedLocalManualResetEventRef, LocalManualResetEvent,
};
pub use manual::{EmbeddedManualResetEvent, EmbeddedManualResetEventRef, ManualResetEvent};
pub use mutex::{
    EmbeddedMutex, Mutex, MutexGuard, MutexLockFuture, RawMutex, RawMutexGuard, RawMutexLockFuture,
};
pub use once::local::{LocalOnceEvent, LocalOnceReceiver, LocalOnceSender};
pub use once::pooled_local::{LocalOnceEventPool, PooledLocalOnceReceiver, PooledLocalOnceSender};
pub use once::pooled_sync::{OnceEventPool, PooledOnceReceiver, PooledOnceSender};
pub use once::sync::{OnceEvent, OnceReceiver, OnceSender};
pub use waiters::Poll;
