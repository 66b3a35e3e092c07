//! One-time events: a sender passes one value to a receiver.
pub mod backtrace;
pub mod event_state;
pub mod local;
pub mod pinned_with_ref_count;
pub mod pool_store;
pub mod pooled;
pub mod pooled_local;
pub mod pooled_sync;
pub mod ref_count;
pub mod rules;
pub mod sync;
