//! Mutex built from an atomic counter and a semaphore
//!
//! Every operation is one atomic step on the counter, followed by at most one call of the
//! semaphore that the step's outcome decides. The steps are the moves of
//! [`crate::mutex::protocol`], which proves what they achieve together.

use crate::mutex::{GuardToken, MutexGuard};
use crate::sem::Semaphore;
use core::sync::atomic::{AtomicU32, Ordering};
use vstd::prelude::*;

verus! {

/// Whether a thread that raised the counter from `prev` finds the lock taken and has to
/// sleep on the semaphore.
pub open spec fn must_wait(prev: int) -> bool {
    prev > 0
}

/// Whether a thread that tries to swap the counter from 0 to 1 and finds `prev` in it
/// takes the lock.
pub open spec fn may_take(prev: int) -> bool {
    prev == 0
}

/// Whether a thread that lowered the counter from `prev` leaves sleepers behind and owes
/// them one post.
pub open spec fn must_wake(prev: int) -> bool {
    prev > 1
}

/// The counter's value before a compare-and-swap, whichever way the swap went.
pub open spec fn before_swap(swap: Result<u32, u32>) -> u32 {
    match swap {
        Ok(prev) => prev,
        Err(prev) => prev,
    }
}

/// Whether a `try_lock` whose swap of 0 for 1 came to `swap` takes the lock: it does
/// exactly when the counter was 0.
pub open spec fn takes(swap: Result<u32, u32>) -> bool {
    may_take(before_swap(swap) as int)
}

/// Whether a `lock` that raised the counter from `prev` sleeps on the semaphore: it does
/// exactly when the counter was above 0.
pub open spec fn waits_after(prev: u32) -> bool {
    must_wait(prev as int)
}

/// Whether an `unlock` that lowered the counter from `prev` posts the semaphore: it does
/// exactly when the counter was above 1.
pub open spec fn wakes_after(prev: u32) -> bool {
    must_wake(prev as int)
}

/// Decides, from the counter's value before the increment, whether `lock` has to sleep.
pub fn contended(prev: u32) -> (wait: bool)
    ensures
        wait == waits_after(prev),
{
    prev > 0
}

/// Decides, from the outcome of swapping 0 for 1, whether `try_lock` took the lock.
pub fn acquired(swap: Result<u32, u32>) -> (taken: bool)
    ensures
        taken == takes(swap),
{
    match swap {
        Ok(prev) => prev == 0,
        Err(prev) => prev == 0,
    }
}

/// Decides, from the counter's value before the decrement, whether `unlock` has to
/// post the semaphore.
pub fn owes_wakeup(prev: u32) -> (wake: bool)
    ensures
        wake == wakes_after(prev),
{
    prev > 1
}

/// Semaphore based implementation, often called Benaphore.
///
/// The counter holds the number of threads that hold the lock or are queueing for it; the
/// semaphore is touched only when two of them meet. Increments and decrements of the
/// counter acquire and release, so that what one holder wrote is seen by the next.
///
/// The lock is not recursive: a thread that locks again while it holds the lock waits for
/// itself. The counter wraps after `u32::MAX` contenders.
pub struct Mutex<T> {
    sem: T,
    count: AtomicU32,
}

impl<T: Semaphore> Mutex<T> {
    /// The semaphore on which the threads that find the lock taken sleep.
    pub closed spec fn semaphore(self) -> T {
        self.sem
    }

    /// The semaphore of the mutex that there is, if there is one.
    pub open spec fn semaphore_of(mutex: Option<Self>) -> Option<T> {
        match mutex {
            Some(made) => Some(made.semaphore()),
            None => None,
        }
    }

    /// Whether the counter is as `AtomicU32::new` made it, with the value 0.
    pub closed spec fn unlocked(self) -> bool {
        call_ensures(AtomicU32::new, (0u32,), self.count)
    }

    /// Whether `swap` is what the swap of the counter from 0 to 1 came to, as made by
    /// `AtomicU32::compare_exchange` on this mutex.
    pub closed spec fn swapped(&self, swap: Result<u32, u32>) -> bool {
        call_ensures(
            AtomicU32::compare_exchange,
            (&self.count, 0u32, 1u32, Ordering::AcqRel, Ordering::Acquire),
            swap,
        )
    }

    /// Whether `prev` is what raising the counter by one came to, as made by
    /// `AtomicU32::fetch_add` on this mutex: the counter's value before.
    pub closed spec fn raised(&self, prev: u32) -> bool {
        call_ensures(AtomicU32::fetch_add, (&self.count, 1u32, Ordering::AcqRel), prev)
    }

    /// Whether `prev` is what lowering the counter by one came to, as made by
    /// `AtomicU32::fetch_sub` on this mutex: the counter's value before.
    pub closed spec fn lowered(&self, prev: u32) -> bool {
        call_ensures(AtomicU32::fetch_sub, (&self.count, 1u32, Ordering::AcqRel), prev)
    }

    /// Whether a `wait` on the semaphore of this mutex has returned.
    pub closed spec fn slept(&self) -> bool {
        call_ensures(T::wait, (&self.sem,), ())
    }

    /// Whether the semaphore of this mutex has been posted.
    pub closed spec fn posted(&self) -> bool {
        exists|woke: bool| #[trigger] call_ensures(T::post, (&self.sem,), woke)
    }

    /// Builds the mutex around the semaphore that the backend returned, if it returned one:
    /// there is a mutex exactly when there is a semaphore, it sleeps on that one, and its
    /// counter starts at 0. The semaphore is the fresh one that `new` asked for, with the
    /// value 0.
    pub(crate) fn with_semaphore(sem: Option<T>) -> (mutex: Option<Self>)
        ensures
            Self::semaphore_of(mutex) == sem,
            mutex matches Some(made) ==> made.unlocked(),
    {
        match sem {
            Some(sem) => Some(Self { sem, count: AtomicU32::new(0) }),
            None => None,
        }
    }

    /// What `lock` does once it has raised the counter from `prev`, which it must have
    /// done before: it sleeps on the semaphore if the counter was above 0, and returns the
    /// guard of this mutex.
    fn after_raise(&self, prev: u32) -> (guard: MutexGuard<'_, Self>)
        requires
            self.raised(prev),
        ensures
            waits_after(prev) ==> self.slept(),
            guard.mutex() == self,
    {
        if contended(prev) {
            self.sem.wait();
            assert(self.slept());
        }
        MutexGuard::hold(self)
    }

    /// What `unlock` does once it has lowered the counter from `prev`, which it must have
    /// done before: it posts the semaphore once if the counter was above 1.
    fn after_lower(&self, prev: u32)
        requires
            self.lowered(prev),
        ensures
            wakes_after(prev) ==> self.posted(),
    {
        if owes_wakeup(prev) {
            let woke = self.sem.post();
            assert(call_ensures(T::post, (&self.sem,), woke));
        }
    }

    /// What `try_lock` returns once it has tried to swap the counter from 0 to 1: the
    /// guard of this mutex exactly when the counter was 0.
    fn after_swap(&self, swap: Result<u32, u32>) -> (guard: Option<MutexGuard<'_, Self>>)
        ensures
            guard is Some <==> takes(swap),
            guard matches Some(g) ==> g.mutex() == self,
    {
        MutexGuard::claim(self, acquired(swap))
    }
}

impl<T: Semaphore> super::Mutex for Mutex<T> {
    /// Creates the semaphore with the value 0 and the counter at 0. There is a mutex
    /// exactly when `T::new`, asked for a semaphore with the value 0, returned one, and
    /// that one is the semaphore of the mutex.
    fn new() -> (mutex: Option<Self>)
        ensures
            call_ensures(T::new, (0u32,), Self::semaphore_of(mutex)),
            mutex matches Some(made) ==> made.unlocked(),
    {
        Self::with_semaphore(T::new(0))
    }

    /// Raises the counter, and sleeps on the semaphore if it was not 0 before: the moves
    /// `Enter` and, for a thread that `Enter` left queued, `Wake`. The guard is returned
    /// after the counter was raised by one and, where it was above 0 before, after a wait
    /// on the semaphore has returned.
    fn lock(&self) -> (guard: MutexGuard<'_, Self>)
        ensures
            exists|prev: u32| #[trigger] self.raised(prev) && (waits_after(prev) ==> self.slept()),
    {
        let prev: u32 = self.count.fetch_add(1, Ordering::AcqRel);
        assert(self.raised(prev));
        self.after_raise(prev)
    }

    /// Swaps the counter from 0 to 1 and takes the lock if that went through; otherwise
    /// the counter is left alone and nothing blocks: the move `Try`. There is a guard
    /// exactly when the swap found 0 in the counter.
    fn try_lock(&self) -> (guard: Option<MutexGuard<'_, Self>>)
        ensures
            exists|swap: Result<u32, u32>| #[trigger] self.swapped(swap) && (guard is Some <==> takes(swap)),
    {
        let swap = self.count.compare_exchange(0, 1, Ordering::AcqRel, Ordering::Acquire);
        assert(self.swapped(swap));
        self.after_swap(swap)
    }

    /// Lowers the counter, and posts the semaphore once if other threads are queued: the
    /// moves `Exit` and, for a thread that `Exit` left owing, `Post`. On return the
    /// counter was lowered by one and, where it was above 1 before, the semaphore was
    /// posted.
    fn unlock(&self, token: GuardToken)
        ensures
            exists|prev: u32| #[trigger] self.lowered(prev) && (wakes_after(prev) ==> self.posted()),
    {
        let prev: u32 = self.count.fetch_sub(1, Ordering::AcqRel);
        assert(self.lowered(prev));
        self.after_lower(prev)
    }
}

} // verus!
