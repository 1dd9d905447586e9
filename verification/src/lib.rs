//! The decision logic of a small set of async-aware synchronization primitives: what a waiter
//! does when it is polled, woken, canceled or dropped, how a thread blocks on a future, and how the
//! benchmarks of the locks are run.

pub mod bench;
pub mod block_on;
pub mod outside;
mod sequences;
pub mod waiter;
pub mod waiter_laws;
