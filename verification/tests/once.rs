use os_sync::once::{
    completed, entry, must_block, report, settle, verdict, Entry, OnceError, COMPLETE, FAIL,
    INCOMPLETE, RUNNING,
};
use os_sync::{Once, Semaphore};
use std::sync::atomic::{AtomicU32, AtomicU8, Ordering};
use std::time::Duration;

static WAITS: [AtomicU32; 2] = [AtomicU32::new(0), AtomicU32::new(0)];
static POSTS: [AtomicU32; 2] = [AtomicU32::new(0), AtomicU32::new(0)];

/// A semaphore that never blocks and writes down, under the number `N`, how often it was
/// waited on and posted.
struct ProbeSem<const N: usize>;

impl<const N: usize> Semaphore for ProbeSem<N> {
    fn new(_init: u32) -> Option<Self> {
        Some(ProbeSem)
    }

    fn wait(&self) {
        WAITS[N].fetch_add(1, Ordering::SeqCst);
    }

    fn try_wait(&self) -> bool {
        false
    }

    fn wait_timeout(&self, _timeout: Duration) -> bool {
        false
    }

    fn post(&self) -> bool {
        POSTS[N].fetch_add(1, Ordering::SeqCst);
        true
    }
}

/// A semaphore that the system never provides.
struct NoSem;

impl Semaphore for NoSem {
    fn new(_init: u32) -> Option<Self> {
        None
    }

    fn wait(&self) {}

    fn try_wait(&self) -> bool {
        false
    }

    fn wait_timeout(&self, _timeout: Duration) -> bool {
        false
    }

    fn post(&self) -> bool {
        false
    }
}

#[test]
fn closure_runs_once_over_eight_calls() {
    let counter = AtomicU8::new(0);
    let once = Once::<ProbeSem<0>>::new();

    for _ in 0..8 {
        let res = once.call_once(|| {
            counter.fetch_add(1, Ordering::SeqCst);
            true
        });
        assert_eq!(res, Ok(()));
    }

    assert_eq!(counter.load(Ordering::Relaxed), 1);
    assert_eq!(WAITS[0].load(Ordering::SeqCst), 0);
    assert_eq!(POSTS[0].load(Ordering::SeqCst), 0);
}

#[test]
fn is_completed_tells_success_only() {
    let once = Once::<NoSem>::new();
    assert!(!once.is_completed());

    let once = Once::<ProbeSem<0>>::new();
    assert!(!once.is_completed());
    assert_eq!(once.call_once(|| true), Ok(()));
    assert!(once.is_completed());

    let once = Once::<ProbeSem<0>>::new();
    assert_eq!(once.call_once(|| false), Err(OnceError::ClosureFailed));
    assert!(!once.is_completed());
}

#[test]
fn failed_closure_poisons_every_later_call() {
    let counter = AtomicU8::new(0);
    let once = Once::<ProbeSem<0>>::new();

    let first = once.call_once(|| {
        counter.fetch_add(1, Ordering::SeqCst);
        false
    });
    assert_eq!(first, Err(OnceError::ClosureFailed));

    for _ in 0..5 {
        let later = once.call_once(|| {
            counter.fetch_add(1, Ordering::SeqCst);
            true
        });
        assert_eq!(later, Err(OnceError::Poisoned));
    }
    assert_eq!(counter.load(Ordering::SeqCst), 1);
    assert!(!once.is_completed());
}

#[test]
fn runner_without_semaphore_fails_without_running() {
    let counter = AtomicU8::new(0);
    let once = Once::<NoSem>::new();

    let first = once.call_once(|| {
        counter.fetch_add(1, Ordering::SeqCst);
        true
    });
    assert_eq!(first, Err(OnceError::NoSemaphore));

    let later = once.call_once(|| {
        counter.fetch_add(1, Ordering::SeqCst);
        true
    });
    assert_eq!(later, Err(OnceError::Poisoned));
    assert_eq!(counter.load(Ordering::SeqCst), 0);
    assert!(!once.is_completed());
}

#[test]
fn joiner_is_announced_and_posted_once() {
    let counter = AtomicU8::new(0);
    let once = Once::<ProbeSem<1>>::new();

    let outer = once.call_once(|| {
        counter.fetch_add(1, Ordering::SeqCst);
        let inner = once.call_once(|| {
            counter.fetch_add(1, Ordering::SeqCst);
            true
        });
        assert_eq!(WAITS[1].load(Ordering::SeqCst), 1);
        assert_eq!(POSTS[1].load(Ordering::SeqCst), 0);
        assert!(inner.is_err());
        true
    });

    assert_eq!(outer, Ok(()));
    assert_eq!(counter.load(Ordering::SeqCst), 1);
    assert_eq!(WAITS[1].load(Ordering::SeqCst), 1);
    assert_eq!(POSTS[1].load(Ordering::SeqCst), 1);
    assert!(once.is_completed());
    assert_eq!(once.call_once(|| false), Ok(()));
}

#[test]
fn entry_follows_the_tag() {
    assert_eq!(entry(INCOMPLETE), Entry::Claim);
    assert_eq!(entry(RUNNING), Entry::Join);
    assert_eq!(entry(COMPLETE), Entry::Done);
    assert_eq!(entry(FAIL), Entry::Poisoned);
    assert_eq!(entry(3), Entry::Join);
    assert_eq!(entry(255), Entry::Join);
}

#[test]
fn tags_keep_their_values() {
    assert_eq!(INCOMPLETE, 0);
    assert_eq!(RUNNING, 1);
    assert_eq!(COMPLETE, 2);
    assert_eq!(FAIL, 4);
}

#[test]
fn only_complete_counts_as_completed() {
    assert!(completed(COMPLETE));
    assert!(!completed(INCOMPLETE));
    assert!(!completed(RUNNING));
    assert!(!completed(FAIL));
}

#[test]
fn joiner_sleeps_only_while_the_run_is_under_way() {
    assert!(must_block(RUNNING));
    assert!(!must_block(COMPLETE));
    assert!(!must_block(FAIL));
    assert!(!must_block(INCOMPLETE));
}

#[test]
fn runner_reports_its_own_outcome() {
    assert_eq!(report(None), Err(OnceError::NoSemaphore));
    assert_eq!(report(Some(true)), Ok(()));
    assert_eq!(report(Some(false)), Err(OnceError::ClosureFailed));
}

#[test]
fn verdict_and_settlement_agree() {
    assert_eq!(verdict(true), COMPLETE);
    assert_eq!(verdict(false), FAIL);
    assert_eq!(settle(COMPLETE), Ok(()));
    assert_eq!(settle(FAIL), Err(OnceError::Poisoned));
    assert_eq!(settle(RUNNING), Err(OnceError::Poisoned));
    assert_eq!(settle(verdict(true)), Ok(()));
}
