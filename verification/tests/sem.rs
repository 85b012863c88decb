use os_sync::Semaphore;
use std::sync::{Condvar, Mutex};
use std::time::Duration;

/// A counting semaphore made of a locked counter and a condition variable.
struct CountingSem {
    count: Mutex<u32>,
    posted: Condvar,
}

impl CountingSem {
    fn value(&self) -> u32 {
        *self.count.lock().unwrap()
    }
}

impl Semaphore for CountingSem {
    fn new(init: u32) -> Option<Self> {
        Some(CountingSem { count: Mutex::new(init), posted: Condvar::new() })
    }

    fn wait(&self) {
        let mut count = self.count.lock().unwrap();
        while *count == 0 {
            count = self.posted.wait(count).unwrap();
        }
        *count -= 1;
    }

    fn try_wait(&self) -> bool {
        let mut count = self.count.lock().unwrap();
        if *count == 0 {
            false
        } else {
            *count -= 1;
            true
        }
    }

    fn wait_timeout(&self, timeout: Duration) -> bool {
        let count = self.count.lock().unwrap();
        let (mut count, _) = self.posted.wait_timeout_while(count, timeout, |c| *c == 0).unwrap();
        if *count == 0 {
            false
        } else {
            *count -= 1;
            true
        }
    }

    fn post(&self) -> bool {
        let mut count = self.count.lock().unwrap();
        let was_empty = *count == 0;
        *count += 1;
        self.posted.notify_one();
        was_empty
    }
}

#[test]
fn should_return_when_signaled() {
    let sem = CountingSem::new(0).unwrap();

    assert!(sem.try_lock().is_none());
    assert!(sem.post());
    assert!(!sem.post());

    let _guard = sem.lock();
    assert!(sem.try_wait());
    assert!(!sem.try_wait());

    _guard.release();
    assert!(sem.try_wait());
}

#[test]
fn fresh_semaphore_takes_one_wait_per_post() {
    let sem = CountingSem::new(0).unwrap();

    assert!(!sem.try_wait());
    sem.post();
    assert!(sem.try_wait());
    assert!(!sem.try_wait());

    sem.post();
    sem.wait();
    assert_eq!(sem.value(), 0);
}

#[test]
fn timed_wait_gives_up_on_an_empty_semaphore() {
    let sem = CountingSem::new(0).unwrap();
    assert!(!sem.wait_timeout(Duration::from_millis(5)));

    sem.post();
    assert!(sem.wait_timeout(Duration::from_millis(5)));
    assert_eq!(sem.value(), 0);
}

#[test]
fn guard_taken_and_released_leaves_count_unchanged() {
    let sem = CountingSem::new(3).unwrap();

    let guard = sem.lock();
    assert_eq!(sem.value(), 2);
    guard.release();
    assert_eq!(sem.value(), 3);

    let guard = sem.try_lock().unwrap();
    assert_eq!(sem.value(), 2);
    guard.release();
    assert_eq!(sem.value(), 3);
}

#[test]
fn live_guards_make_up_the_deficit() {
    let sem = CountingSem::new(2).unwrap();

    let first = sem.try_lock().unwrap();
    let second = sem.try_lock().unwrap();
    assert_eq!(sem.value(), 0);
    assert!(sem.try_lock().is_none());
    assert_eq!(sem.value(), 0);

    first.release();
    assert_eq!(sem.value(), 1);
    second.release();
    assert_eq!(sem.value(), 2);
}

#[test]
fn release_reports_what_post_reports() {
    let sem = CountingSem::new(1).unwrap();

    let guard = sem.lock();
    assert!(guard.release());

    sem.post();
    let guard = sem.lock();
    assert!(!guard.release());
    assert_eq!(sem.value(), 2);
}

#[test]
fn refused_try_lock_changes_nothing() {
    let sem = CountingSem::new(0).unwrap();

    assert!(sem.try_lock().is_none());
    assert_eq!(sem.value(), 0);

    sem.post();
    let guard = sem.try_lock();
    assert!(guard.is_some());
    assert_eq!(sem.value(), 0);
    guard.unwrap().release();
    assert_eq!(sem.value(), 1);
}
