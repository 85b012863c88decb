//! Semaphore primitive
//!
//! The semaphore itself belongs to the operating system. [`Semaphore`] says what a backend
//! has to offer, [`posix`], [`win32`] and [`mac`] read the answers of the system calls that
//! a backend makes, and [`protocol`] keeps the books of a semaphore and its guards.

pub mod mac;
pub mod posix;
pub mod protocol;
pub mod win32;

use core::time::Duration;
use vstd::prelude::*;

verus! {

/// What one call into the operating system to decrement a semaphore came to.
#[derive(Debug, Clone, Copy, PartialEq, Eq, Structural)]
pub enum Attempt {
    /// The semaphore was decremented.
    Acquired,
    /// The semaphore could not be decremented now, or not in time.
    Unavailable,
    /// The call was interrupted before it could tell.
    Interrupted,
    /// The call failed for a reason it should never have.
    Unexpected,
}

/// What the caller of a wait is told after an attempt that came to `attempt`: `true` or
/// `false` where the attempt settled the matter, nothing where the call has to be made
/// again. An interruption is never reported.
pub open spec fn verdict_of(attempt: Attempt) -> Option<bool> {
    match attempt {
        Attempt::Acquired => Some(true),
        Attempt::Unavailable => Some(false),
        Attempt::Interrupted => None,
        Attempt::Unexpected => None,
    }
}

impl Attempt {
    /// Tells what the caller of a wait hears of this attempt, if anything: `None` means
    /// that the backend makes the call again.
    pub fn verdict(self) -> (told: Option<bool>)
        ensures
            told == verdict_of(self),
    {
        match self {
            Attempt::Acquired => Some(true),
            Attempt::Unavailable => Some(false),
            Attempt::Interrupted => None,
            Attempt::Unexpected => None,
        }
    }
}

/// Describes the semaphore interface.
///
/// A semaphore gives access to a single non-negative integer that `post` increments and
/// `wait` decrements, blocking while it is zero. Every method may be called from any number
/// of threads at once, so what a call returns depends on what other threads did in the
/// meantime and no method promises a particular result.
pub trait Semaphore: Sized {
    /// Creates a new instance, returning `None` when the system cannot provide one.
    ///
    /// `init` is the initial value of the semaphore.
    fn new(init: u32) -> Option<Self>;

    /// Decrements self, returning immediately if it was signaled, and otherwise blocking
    /// until a `post` arrives. An interrupted wait is resumed, never reported.
    fn wait(&self);

    /// Attempts to decrement self without blocking; `true` when the decrement happened.
    fn try_wait(&self) -> bool;

    /// Attempts to decrement self within `timeout`; `true` when the decrement happened,
    /// `false` when the time ran out first.
    fn wait_timeout(&self, timeout: Duration) -> bool;

    /// Increments self, waking one blocked waiter if there is any.
    ///
    /// The result tells whether a waiter looked asleep at the moment of the increment.
    /// It is only a hint: by the time the caller reads it the situation may have changed.
    fn post(&self) -> bool;

    /// Waits for the semaphore and returns the guard that stands for the decrement: a
    /// `wait`, called on this semaphore, has returned, and the guard is of this semaphore.
    fn lock(&self) -> (guard: SemaphoreGuard<'_, Self>)
        ensures
            call_ensures(Self::wait, (self,), ()),
            guard.semaphore() == self,
    {
        self.wait();
        SemaphoreGuard::hold(self)
    }

    /// Attempts to decrement the semaphore without blocking. There is a guard exactly when
    /// `try_wait`, called on this semaphore, answered `true`.
    fn try_lock(&self) -> (guard: Option<SemaphoreGuard<'_, Self>>)
        ensures
            call_ensures(Self::try_wait, (self,), guard is Some),
            guard matches Some(g) ==> g.semaphore() == self,
    {
        let acquired = self.try_wait();
        SemaphoreGuard::claim(self, acquired)
    }
}

/// Stands for one successful decrement of a [`Semaphore`], to be given back with
/// [`SemaphoreGuard::release`]. A guard that is dropped instead keeps its decrement.
#[must_use]
pub struct SemaphoreGuard<'a, T> {
    sem: &'a T,
}

impl<'a, T> SemaphoreGuard<'a, T> {
    /// The semaphore this guard will post.
    pub closed spec fn semaphore(&self) -> &'a T {
        self.sem
    }

    /// Makes the guard of a decrement of `sem` that has happened. Only `lock` and
    /// `try_lock` make guards, so a guard always stands for such a decrement.
    pub(crate) fn hold(sem: &'a T) -> (guard: Self)
        ensures
            guard.semaphore() == sem,
    {
        SemaphoreGuard { sem }
    }

    /// Turns the answer of a decrement attempt on `sem` into a guard: there is one exactly
    /// when the attempt went through.
    pub(crate) fn claim(sem: &'a T, acquired: bool) -> (guard: Option<Self>)
        ensures
            guard is Some <==> acquired,
            guard matches Some(g) ==> g.semaphore() == sem,
    {
        if acquired {
            Some(Self::hold(sem))
        } else {
            None
        }
    }
}

impl<'a, T: Semaphore> SemaphoreGuard<'a, T> {
    /// Gives the decrement back: posts the semaphore once and consumes the guard, so that
    /// no decrement is given back twice. Returns what `post`, called on the guard's
    /// semaphore, returned.
    pub fn release(self) -> (woke: bool)
        ensures
            call_ensures(T::post, (self.semaphore(),), woke),
    {
        self.sem.post()
    }
}

} // verus!
