//! Locks and one-time initialization on the semaphores of the operating system
//!
//! Three primitives are built on one capability, the counting [`Semaphore`] of the
//! operating system:
//!
//! - [`SemaphoreGuard`], which stands for one decrement of a semaphore;
//! - [`mutex::SemMutex`], a mutex that touches its semaphore only under contention;
//! - [`Once`], which runs an initialization at most once and lets every caller share its
//!   outcome.
//!
//! The executable code works on atomics and on the semaphore, whose values other threads
//! change at any moment. A function that reads or changes one says in its contract which
//! call it made, what it handed to the call, and what it made of the answer; where one
//! step has to come before another, the later step demands the earlier. Every decision
//! on an answer is a function with an exact contract.
//!
//! What follows for threads that run concurrently is proved on the protocols themselves:
//! [`sem::protocol`], [`mutex::protocol`] and [`once::protocol`] play each primitive with
//! any number of threads, one atomic step at a time, by the same decision functions.
//!
//! Nothing here panics and nothing is released behind the caller's back: guards are given
//! back by an explicit call, and a closure handed to [`Once::call_once`] reports a failed
//! initialization by returning `false`.

pub mod mutex;
pub mod once;
pub mod sem;
pub mod tally;

pub use mutex::Mutex;
pub use once::{Once, OnceError};
pub use sem::{Semaphore, SemaphoreGuard};
