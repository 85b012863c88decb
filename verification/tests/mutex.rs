use os_sync::mutex::sem::{acquired, contended, owes_wakeup};
use os_sync::mutex::SemMutex;
use os_sync::{Mutex, Semaphore};
use std::sync::atomic::{AtomicU32, Ordering};
use std::sync::{Condvar, Mutex as StdMutex};
use std::time::Duration;

/// A counting semaphore made of a locked counter and a condition variable.
struct CountingSem {
    count: StdMutex<u32>,
    posted: Condvar,
}

impl Semaphore for CountingSem {
    fn new(init: u32) -> Option<Self> {
        Some(CountingSem { count: StdMutex::new(init), posted: Condvar::new() })
    }

    fn wait(&self) {
        let mut count = self.count.lock().unwrap();
        while *count == 0 {
            count = self.posted.wait(count).unwrap();
        }
        *count -= 1;
    }

    fn try_wait(&self) -> bool {
        let mut count = self.count.lock().unwrap();
        if *count == 0 {
            false
        } else {
            *count -= 1;
            true
        }
    }

    fn wait_timeout(&self, timeout: Duration) -> bool {
        let count = self.count.lock().unwrap();
        let (mut count, _) = self.posted.wait_timeout_while(count, timeout, |c| *c == 0).unwrap();
        if *count == 0 {
            false
        } else {
            *count -= 1;
            true
        }
    }

    fn post(&self) -> bool {
        let mut count = self.count.lock().unwrap();
        let was_empty = *count == 0;
        *count += 1;
        self.posted.notify_one();
        was_empty
    }
}

static WAITS: [AtomicU32; 3] = [AtomicU32::new(0), AtomicU32::new(0), AtomicU32::new(0)];
static POSTS: [AtomicU32; 3] = [AtomicU32::new(0), AtomicU32::new(0), AtomicU32::new(0)];

/// A semaphore that never blocks and writes down, under the number `N`, how often it was
/// waited on and posted.
struct ProbeSem<const N: usize>;

impl<const N: usize> ProbeSem<N> {
    fn waits() -> u32 {
        WAITS[N].load(Ordering::SeqCst)
    }

    fn posts() -> u32 {
        POSTS[N].load(Ordering::SeqCst)
    }
}

impl<const N: usize> Semaphore for ProbeSem<N> {
    fn new(_init: u32) -> Option<Self> {
        Some(ProbeSem)
    }

    fn wait(&self) {
        WAITS[N].fetch_add(1, Ordering::SeqCst);
    }

    fn try_wait(&self) -> bool {
        false
    }

    fn wait_timeout(&self, _timeout: Duration) -> bool {
        false
    }

    fn post(&self) -> bool {
        POSTS[N].fetch_add(1, Ordering::SeqCst);
        true
    }
}

/// A semaphore that the system never provides.
struct NoSem;

impl Semaphore for NoSem {
    fn new(_init: u32) -> Option<Self> {
        None
    }

    fn wait(&self) {}

    fn try_wait(&self) -> bool {
        false
    }

    fn wait_timeout(&self, _timeout: Duration) -> bool {
        false
    }

    fn post(&self) -> bool {
        false
    }
}

#[test]
fn should_lock_sem_mutex_without_contest() {
    let mutex = SemMutex::<CountingSem>::new().unwrap();

    {
        let _lock = mutex.lock();
        _lock.unlock();
    }

    {
        let _lock = mutex.try_lock().unwrap();
        _lock.unlock();
    }
}

#[test]
fn try_lock_fails_while_locked_and_succeeds_after_unlock() {
    let mutex = SemMutex::<CountingSem>::new().unwrap();

    let held = mutex.lock();
    assert!(mutex.try_lock().is_none());
    assert!(mutex.try_lock().is_none());
    held.unlock();

    let again = mutex.try_lock();
    assert!(again.is_some());
    assert!(mutex.try_lock().is_none());
    again.unwrap().unlock();
    assert!(mutex.try_lock().is_some());
}

#[test]
fn uncontended_lock_never_touches_the_semaphore() {
    let mutex = SemMutex::<ProbeSem<0>>::new().unwrap();

    for _ in 0..5 {
        mutex.lock().unlock();
        mutex.try_lock().unwrap().unlock();
    }
    assert_eq!(ProbeSem::<0>::waits(), 0);
    assert_eq!(ProbeSem::<0>::posts(), 0);
}

#[test]
fn contended_lock_waits_and_its_unlock_posts_once() {
    let mutex = SemMutex::<ProbeSem<1>>::new().unwrap();

    let first = mutex.lock();
    assert_eq!(ProbeSem::<1>::waits(), 0);
    let second = mutex.lock();
    assert_eq!(ProbeSem::<1>::waits(), 1);
    let third = mutex.lock();
    assert_eq!(ProbeSem::<1>::waits(), 2);

    first.unlock();
    assert_eq!(ProbeSem::<1>::posts(), 1);
    second.unlock();
    assert_eq!(ProbeSem::<1>::posts(), 2);
    third.unlock();
    assert_eq!(ProbeSem::<1>::posts(), 2);
    assert_eq!(ProbeSem::<1>::waits(), 2);
}

#[test]
fn failed_try_lock_leaves_the_counter_alone() {
    let mutex = SemMutex::<ProbeSem<2>>::new().unwrap();

    let held = mutex.lock();
    assert!(mutex.try_lock().is_none());
    assert!(mutex.try_lock().is_none());
    held.unlock();
    assert_eq!(ProbeSem::<2>::posts(), 0);
    assert_eq!(ProbeSem::<2>::waits(), 0);
}

#[test]
fn mutex_needs_its_semaphore() {
    assert!(SemMutex::<NoSem>::new().is_none());
    assert!(SemMutex::<CountingSem>::new().is_some());
}

#[test]
fn lock_waits_exactly_when_the_counter_was_raised_from_above_zero() {
    assert!(!contended(0));
    assert!(contended(1));
    assert!(contended(2));
    assert!(contended(u32::MAX));
}

#[test]
fn try_lock_takes_exactly_when_the_counter_was_zero() {
    assert!(acquired(Ok(0)));
    assert!(!acquired(Err(1)));
    assert!(!acquired(Err(7)));
    assert!(!acquired(Ok(3)));
    assert!(acquired(Err(0)));
}

#[test]
fn unlock_posts_exactly_when_the_counter_was_lowered_from_above_one() {
    assert!(!owes_wakeup(0));
    assert!(!owes_wakeup(1));
    assert!(owes_wakeup(2));
    assert!(owes_wakeup(u32::MAX));
}
