//! Mutex implementations
//!
//! [`Mutex`] is the interface, [`SemMutex`] the implementation on a semaphore, and
//! [`protocol`] the proof that the implementation's steps keep concurrent threads apart.

pub mod protocol;
pub mod sem;

pub use sem::Mutex as SemMutex;

use vstd::prelude::*;

verus! {

/// Token handed to [`Mutex::unlock`] by a [`MutexGuard`] that is being given back.
///
/// Only a guard can make one, so an unlock always answers an earlier lock.
pub struct GuardToken {
    seal: (),
}

/// Describes the mutex interface.
pub trait Mutex: Sized {
    /// Creates a new instance; `None` when the underlying semaphore cannot be created.
    fn new() -> Option<Self>;

    /// Acquires the lock, blocking while another thread holds it.
    fn lock(&self) -> (guard: MutexGuard<'_, Self>)
        ensures
            guard.mutex() == self,
    ;

    /// Attempts to acquire the lock without blocking; `None` when it is already taken.
    fn try_lock(&self) -> (guard: Option<MutexGuard<'_, Self>>)
        ensures
            guard matches Some(g) ==> g.mutex() == self,
    ;

    /// Tells how to perform the unlock. Reached only through [`MutexGuard::unlock`].
    fn unlock(&self, token: GuardToken);
}

/// Proof that a [`Mutex`] is held; giving it back with [`MutexGuard::unlock`] is the only
/// way to release the lock. A guard that is dropped instead leaves the mutex locked.
#[must_use]
pub struct MutexGuard<'a, T> {
    mutex: &'a T,
}

impl<'a, T> MutexGuard<'a, T> {
    /// The mutex this guard holds.
    pub closed spec fn mutex(&self) -> &'a T {
        self.mutex
    }

    /// Makes the guard of `mutex`, whose lock has been taken. Only the mutexes of this
    /// crate can make guards, so a guard always stands for a lock that was taken.
    pub(crate) fn hold(mutex: &'a T) -> (guard: Self)
        ensures
            guard.mutex() == mutex,
    {
        MutexGuard { mutex }
    }

    /// Turns the outcome of an acquisition attempt on `mutex` into a guard: there is one
    /// exactly when the lock was taken.
    pub(crate) fn claim(mutex: &'a T, acquired: bool) -> (guard: Option<Self>)
        ensures
            guard is Some <==> acquired,
            guard matches Some(g) ==> g.mutex() == mutex,
    {
        if acquired {
            Some(Self::hold(mutex))
        } else {
            None
        }
    }
}

impl<'a, T: Mutex> MutexGuard<'a, T> {
    /// Releases the lock and consumes the guard, so that no lock is released twice: the
    /// `unlock` of the guard's mutex has been called, with a token that the guard made.
    pub fn unlock(self)
        ensures
            exists|token: GuardToken| #[trigger] call_ensures(T::unlock, (self.mutex(), token), ()),
    {
        let token = GuardToken { seal: () };
        let ghost handed = token;
        self.mutex.unlock(token);
        assert(call_ensures(T::unlock, (self.mutex(), handed), ()));
    }
}

} // verus!
