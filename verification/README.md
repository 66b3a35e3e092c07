# events

Async event primitives, written and verified in Verus: auto-reset and manual-reset events, one-time
events and pools of them, and a mutex that serves its waiters first come, first served.

* `src/` is the library. A type of it is the state of a primitive; its operations take the state by
  `&mut` and hand out the wakers that are to be woken. What the states are, what each operation does
  to them and which laws hold of them is said in the `*_rules` modules: `auto_rules`,
  `manual_rules`, `door_rules`, `lock_rules` and `once::rules`.
* `src/runs/` states that a primitive in a container answers one and the same use as one of its own.
* `src/auto.rs`, `src/manual.rs` and `src/once/sync.rs` are the thread-safe state machines. Their
  operations are made of steps that no other thread can see halfway, and each step keeps the
  invariant whatever steps of other threads come between.
* `src/once/pool_store.rs` keeps the events of a pool, found by the keys of a
  `pinned_pool::PinnedPool`. What it relies on of that crate is stated at the functions that call
  it.
* `app/` shares the states between threads or on one thread, implements the traits of `std` for
  them and wakes whoever is to be woken.
* `tests/` runs the library.
