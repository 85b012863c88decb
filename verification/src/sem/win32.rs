//! Reading the answers of the Win32 semaphore calls
//!
//! The calls themselves (`CreateSemaphoreW`, `WaitForSingleObject`, `ReleaseSemaphore`)
//! are made by the backend that owns the handle. What goes into them and what their
//! return values mean is decided here.

use crate::sem::{verdict_of, Attempt};
use vstd::prelude::*;

verus! {

/// `WaitForSingleObject` returned because the object was signaled.
pub const WAIT_OBJECT_0: u32 = 0;

/// `WaitForSingleObject` returned because the time ran out.
pub const WAIT_TIMEOUT: u32 = 0x00000102;

/// The timeout that makes `WaitForSingleObject` wait without end.
pub const INFINITE: u32 = 0xFFFFFFFF;

/// Milliseconds in a second.
pub const MILLIS_PER_SEC: u64 = 1_000;

/// Nanoseconds in a millisecond.
pub const NANOS_PER_MILLI: u32 = 1_000_000;

/// The count to create a semaphore with, where the system can hold `init`: its counts are
/// signed, so a larger value cannot be asked for.
pub open spec fn initial_count(init: u32) -> Option<i32> {
    if init <= i32::MAX {
        Some(init as i32)
    } else {
        None
    }
}

/// What `WaitForSingleObject` returning `code` came to.
pub open spec fn wait_attempt(code: u32) -> Attempt {
    if code == WAIT_OBJECT_0 {
        Attempt::Acquired
    } else if code == WAIT_TIMEOUT {
        Attempt::Unavailable
    } else {
        Attempt::Unexpected
    }
}

/// Whether `ReleaseSemaphore` returning `released`, with `previous` as the count before,
/// found a sleeper: the call went through and the semaphore stood at 0.
pub open spec fn woke_by(released: i32, previous: i32) -> bool {
    released != 0 && previous == 0
}

/// The span of `secs` seconds and `nanos` nanoseconds in whole milliseconds, rounded up.
pub open spec fn millis_of(secs: u64, nanos: u32) -> int {
    secs * MILLIS_PER_SEC + (nanos + NANOS_PER_MILLI - 1) / (NANOS_PER_MILLI as int)
}

/// The timeout to wait with for that span: its milliseconds, or the longest timeout that
/// still ends if the span is longer.
pub open spec fn timeout_for(secs: u64, nanos: u32) -> u32 {
    if millis_of(secs, nanos) < INFINITE {
        millis_of(secs, nanos) as u32
    } else {
        (INFINITE - 1) as u32
    }
}

/// Converts the initial value of a semaphore into the count to create it with.
pub fn count_for(init: u32) -> (count: Option<i32>)
    ensures
        count == initial_count(init),
{
    if init <= 0x7FFF_FFFF {
        Some(init as i32)
    } else {
        None
    }
}

/// Reads the answer of `WaitForSingleObject`.
pub fn read_wait(code: u32) -> (attempt: Attempt)
    ensures
        attempt == wait_attempt(code),
{
    if code == WAIT_OBJECT_0 {
        Attempt::Acquired
    } else if code == WAIT_TIMEOUT {
        Attempt::Unavailable
    } else {
        Attempt::Unexpected
    }
}

/// Tells what `post` reports, from the answer of `ReleaseSemaphore`.
pub fn woke_sleeper(released: i32, previous: i32) -> (woke: bool)
    ensures
        woke == woke_by(released, previous),
{
    released != 0 && previous == 0
}

/// Computes the timeout, in milliseconds, of a wait that may last `secs` seconds and
/// `nanos` nanoseconds. The result is never `INFINITE`: a timed wait always ends.
pub fn timeout_millis(secs: u64, nanos: u32) -> (millis: u32)
    ensures
        millis == timeout_for(secs, nanos),
        millis != INFINITE,
{
    let fraction: u64 = (nanos as u64 + 999_999) / 1_000_000;
    if secs >= 4_294_968 {
        INFINITE - 1
    } else {
        let total: u64 = secs * 1_000 + fraction;
        if total < 0xFFFF_FFFF {
            total as u32
        } else {
            INFINITE - 1
        }
    }
}

/// A wait is answered with `true` exactly when the object was signaled and with `false`
/// exactly when the time ran out; any other answer is reported to nobody.
pub proof fn wait_verdicts(code: u32)
    ensures
        verdict_of(wait_attempt(code)) == Some(true) <==> code == WAIT_OBJECT_0,
        verdict_of(wait_attempt(code)) == Some(false) <==> code == WAIT_TIMEOUT,
{
}

/// A longer wait never gets a shorter timeout, and a wait of no time gets none.
pub proof fn timeout_grows_with_the_wait(secs: u64, nanos: u32, more_secs: u64, more_nanos: u32)
    requires
        secs <= more_secs,
        nanos <= more_nanos,
    ensures
        timeout_for(secs, nanos) <= timeout_for(more_secs, more_nanos),
        timeout_for(0, 0) == 0,
{
    let a = millis_of(secs, nanos);
    let b = millis_of(more_secs, more_nanos);
    assert((nanos + 999_999) / 1_000_000 <= (more_nanos + 999_999) / 1_000_000)
        by (nonlinear_arith)
        requires
            0 <= nanos <= more_nanos,
    ;
    assert(secs * 1_000 <= more_secs * 1_000) by (nonlinear_arith)
        requires
            0 <= secs <= more_secs,
    ;
    assert(a <= b);
}

} // verus!
