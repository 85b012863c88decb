use os_sync::sem::posix::{created, woke_sleeper, ErrorCodes, Timespec};
use os_sync::sem::Attempt;

const CODES: ErrorCodes = ErrorCodes { interrupted: 4, again: 11, timed_out: 110 };

#[test]
fn native_codes_are_the_platform_s() {
    let codes = ErrorCodes::native();
    assert_eq!(codes.interrupted, libc::EINTR);
    assert_eq!(codes.again, libc::EAGAIN);
    assert_eq!(codes.timed_out, libc::ETIMEDOUT);
}

#[test]
fn error_numbers_must_differ() {
    assert!(CODES.are_distinct());
    assert!(ErrorCodes::native().are_distinct());
    assert!(!ErrorCodes { interrupted: 4, again: 4, timed_out: 110 }.are_distinct());
    assert!(!ErrorCodes { interrupted: 4, again: 11, timed_out: 4 }.are_distinct());
    assert!(!ErrorCodes { interrupted: 4, again: 11, timed_out: 11 }.are_distinct());
}

#[test]
fn semaphore_exists_when_init_returns_zero() {
    assert!(created(0));
    assert!(!created(-1));
    assert!(!created(1));
}

#[test]
fn wait_is_resumed_after_an_interruption() {
    assert_eq!(CODES.read_wait(0, 0), Attempt::Acquired);
    assert_eq!(CODES.read_wait(0, 4), Attempt::Acquired);
    assert_eq!(CODES.read_wait(-1, 4), Attempt::Interrupted);
    assert_eq!(CODES.read_wait(-1, 11), Attempt::Unexpected);
    assert_eq!(CODES.read_wait(-1, 22), Attempt::Unexpected);
}

#[test]
fn try_wait_is_refused_only_by_again() {
    assert_eq!(CODES.read_try_wait(0, 11), Attempt::Acquired);
    assert_eq!(CODES.read_try_wait(-1, 11), Attempt::Unavailable);
    assert_eq!(CODES.read_try_wait(-1, 4), Attempt::Interrupted);
    assert_eq!(CODES.read_try_wait(-1, 110), Attempt::Unexpected);
}

#[test]
fn timed_wait_ends_on_timeout_and_resumes_after_an_interruption() {
    assert_eq!(CODES.read_timed_wait(0, 110), Attempt::Acquired);
    assert_eq!(CODES.read_timed_wait(-1, 110), Attempt::Unavailable);
    assert_eq!(CODES.read_timed_wait(-1, 11), Attempt::Unavailable);
    assert_eq!(CODES.read_timed_wait(-1, 4), Attempt::Interrupted);
    assert_eq!(CODES.read_timed_wait(-1, 22), Attempt::Unexpected);
}

#[test]
fn only_a_settled_attempt_is_reported() {
    assert_eq!(Attempt::Acquired.verdict(), Some(true));
    assert_eq!(Attempt::Unavailable.verdict(), Some(false));
    assert_eq!(Attempt::Interrupted.verdict(), None);
    assert_eq!(Attempt::Unexpected.verdict(), None);
}

#[test]
fn post_found_a_sleeper_when_the_value_was_zero() {
    assert!(woke_sleeper(0));
    assert!(!woke_sleeper(1));
    assert!(!woke_sleeper(-1));
}

fn at(sec: i64, nsec: i64) -> Timespec {
    Timespec::new(sec, nsec).unwrap()
}

#[test]
fn timespec_holds_less_than_a_second_of_nanoseconds() {
    assert!(Timespec::new(0, 0).is_some());
    assert!(Timespec::new(-3, 999_999_999).is_some());
    assert!(Timespec::new(5, 1_000_000_000).is_none());
    assert!(Timespec::new(5, -1).is_none());

    let t = at(12, 345);
    assert_eq!(t.sec(), 12);
    assert_eq!(t.nsec(), 345);
}

#[test]
fn deadline_adds_and_carries() {
    let now = at(100, 600_000_000);
    assert_eq!(now.deadline(0, 0), now);
    assert_eq!(now.deadline(2, 300_000_000), at(102, 900_000_000));
    assert_eq!(now.deadline(2, 400_000_000), at(103, 0));
    assert_eq!(now.deadline(0, 999_999_999), at(101, 599_999_999));
    assert_eq!(now.deadline(0, u32::MAX), at(104, 894_967_295));
}

#[test]
fn deadline_before_the_epoch() {
    let now = at(-5, 500_000_000);
    assert_eq!(now.deadline(3, 600_000_000), at(-1, 100_000_000));
}

#[test]
fn deadline_stops_at_the_last_instant() {
    let now = at(10, 1);
    let last = at(i64::MAX, 999_999_999);
    assert_eq!(now.deadline(u64::MAX, 0), last);
    assert_eq!(now.deadline(i64::MAX as u64, 0), last);
    assert_eq!(now.deadline(i64::MAX as u64 - 10, 999_999_998), at(i64::MAX, 999_999_999));
    assert_eq!(now.deadline(i64::MAX as u64 - 11, 999_999_999), at(i64::MAX, 0));
}
