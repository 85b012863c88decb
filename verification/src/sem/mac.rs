//! Reading the answers of the Mach semaphore calls
//!
//! The calls themselves (`semaphore_create`, `semaphore_wait`, `semaphore_timedwait`,
//! `semaphore_signal`) are made by the backend that owns the semaphore. What goes into them
//! and what their return values mean is decided here.

use crate::sem::{verdict_of, Attempt};
use vstd::prelude::*;

verus! {

/// The call succeeded.
pub const KERN_SUCCESS: i32 = 0;

/// The call was interrupted before it finished.
pub const KERN_ABORTED: i32 = 14;

/// The time allowed for the call ran out.
pub const KERN_OPERATION_TIMED_OUT: i32 = 49;

/// Sleepers are woken in the order in which they arrived.
pub const SYNC_POLICY_FIFO: i32 = 0;

/// Nanoseconds in a second.
pub const NANOS_PER_SEC: u32 = 1_000_000_000;

/// A span of time in the form `semaphore_timedwait` takes it.
#[derive(Debug, Clone, Copy, PartialEq, Eq)]
pub struct Span {
    /// Whole seconds.
    pub sec: u32,
    /// Nanoseconds beyond the whole seconds.
    pub nsec: i32,
}

/// Whether `semaphore_create` returning `res` has created the semaphore.
pub open spec fn created_by(res: i32) -> bool {
    res == KERN_SUCCESS
}

/// What `semaphore_wait` or `semaphore_timedwait` returning `code` came to.
pub open spec fn wait_attempt(code: i32) -> Attempt {
    if code == KERN_SUCCESS {
        Attempt::Acquired
    } else if code == KERN_OPERATION_TIMED_OUT {
        Attempt::Unavailable
    } else if code == KERN_ABORTED {
        Attempt::Interrupted
    } else {
        Attempt::Unexpected
    }
}

/// The span of `secs` seconds and `nanos` nanoseconds as the call takes it: the whole
/// seconds of the span and what is left of it, or the longest span that can be written
/// down if it is longer.
pub open spec fn span_for(secs: u64, nanos: u32) -> Span {
    let whole = secs + nanos / NANOS_PER_SEC;
    if whole <= u32::MAX {
        Span { sec: whole as u32, nsec: (nanos % NANOS_PER_SEC) as i32 }
    } else {
        Span { sec: u32::MAX, nsec: (NANOS_PER_SEC - 1) as i32 }
    }
}

/// Reads the answer of `semaphore_create`.
pub fn created(res: i32) -> (ok: bool)
    ensures
        ok == created_by(res),
{
    res == KERN_SUCCESS
}

/// Reads the answer of `semaphore_wait` or `semaphore_timedwait`.
pub fn read_wait(code: i32) -> (attempt: Attempt)
    ensures
        attempt == wait_attempt(code),
{
    if code == KERN_SUCCESS {
        Attempt::Acquired
    } else if code == KERN_OPERATION_TIMED_OUT {
        Attempt::Unavailable
    } else if code == KERN_ABORTED {
        Attempt::Interrupted
    } else {
        Attempt::Unexpected
    }
}

/// Converts the time that a wait may still last into the form the call takes it.
pub fn span(secs: u64, nanos: u32) -> (out: Span)
    ensures
        out == span_for(secs, nanos),
        0 <= out.nsec < NANOS_PER_SEC,
{
    let carry: u64 = (nanos / NANOS_PER_SEC) as u64;
    let rest: u32 = nanos % NANOS_PER_SEC;
    if secs > 0xFFFF_FFFF - carry {
        Span { sec: u32::MAX, nsec: 999_999_999 }
    } else {
        let whole: u64 = secs + carry;
        Span { sec: whole as u32, nsec: rest as i32 }
    }
}

/// A wait is answered with `true` exactly when the call succeeded and with `false`
/// exactly when its time ran out; an interruption is reported to nobody.
pub proof fn wait_verdicts(code: i32)
    ensures
        verdict_of(wait_attempt(code)) == Some(true) <==> code == KERN_SUCCESS,
        verdict_of(wait_attempt(code)) == Some(false) <==> code == KERN_OPERATION_TIMED_OUT,
        code == KERN_ABORTED ==> verdict_of(wait_attempt(code)) is None,
{
}

} // verus!
