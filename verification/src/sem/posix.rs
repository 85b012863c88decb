//! Reading the answers of the POSIX semaphore calls
//!
//! The calls themselves (`sem_init`, `sem_wait`, `sem_trywait`, `sem_timedwait`,
//! `sem_post`) are made by the backend that owns the `sem_t`. What their return values
//! and error numbers mean, and up to when a timed wait may sleep, is decided here.

use crate::sem::{verdict_of, Attempt};
use vstd::prelude::*;

verus! {

/// Nanoseconds in a second.
pub const NANOS_PER_SEC: i64 = 1_000_000_000;

/// Reads `libc::EINTR`, the error number of a call that a signal interrupted. Its value
/// is the platform's and nothing is assumed about it.
#[verifier::external_body]
fn errno_interrupted() -> i32 {
    libc::EINTR
}

/// Reads `libc::EAGAIN`, the error number of a call that would have had to block. Its
/// value is the platform's and nothing is assumed about it.
#[verifier::external_body]
fn errno_again() -> i32 {
    libc::EAGAIN
}

/// Reads `libc::ETIMEDOUT`, the error number of a call whose time ran out. Its value is
/// the platform's and nothing is assumed about it.
#[verifier::external_body]
fn errno_timed_out() -> i32 {
    libc::ETIMEDOUT
}

/// The error numbers that a semaphore call can report.
#[derive(Debug, Clone, Copy, PartialEq, Eq)]
pub struct ErrorCodes {
    /// The call was interrupted by a signal.
    pub interrupted: i32,
    /// The call would have had to block.
    pub again: i32,
    /// The time allowed for the call ran out.
    pub timed_out: i32,
}

/// A point in time in the form the system calls use: whole seconds since the epoch and
/// the nanoseconds beyond them, of which there is always less than a second's worth.
#[derive(Debug, Clone, Copy, PartialEq, Eq)]
pub struct Timespec {
    sec: i64,
    nsec: i64,
}

/// Whether `sem_init` returning `res` has created the semaphore.
pub open spec fn created_by(res: i32) -> bool {
    res == 0
}

/// What `sem_wait` returning `res` with the error number `errno` came to.
pub open spec fn wait_attempt(codes: ErrorCodes, res: i32, errno: i32) -> Attempt {
    if res != -1 {
        Attempt::Acquired
    } else if errno == codes.interrupted {
        Attempt::Interrupted
    } else {
        Attempt::Unexpected
    }
}

/// What `sem_trywait` returning `res` with the error number `errno` came to.
pub open spec fn try_wait_attempt(codes: ErrorCodes, res: i32, errno: i32) -> Attempt {
    if res != -1 {
        Attempt::Acquired
    } else if errno == codes.again {
        Attempt::Unavailable
    } else if errno == codes.interrupted {
        Attempt::Interrupted
    } else {
        Attempt::Unexpected
    }
}

/// What `sem_timedwait` returning `res` with the error number `errno` came to.
pub open spec fn timed_wait_attempt(codes: ErrorCodes, res: i32, errno: i32) -> Attempt {
    if res != -1 {
        Attempt::Acquired
    } else if errno == codes.timed_out || errno == codes.again {
        Attempt::Unavailable
    } else if errno == codes.interrupted {
        Attempt::Interrupted
    } else {
        Attempt::Unexpected
    }
}

/// Whether a post found a sleeper, judged by the value the semaphore had just before.
pub open spec fn woke_by(value_before: i32) -> bool {
    value_before == 0
}

/// The last instant that a `Timespec` can hold, in nanoseconds since the epoch.
pub open spec fn last_instant() -> int {
    i64::MAX * NANOS_PER_SEC + (NANOS_PER_SEC - 1)
}

/// The deadline of a wait that starts at the instant `now` and may last `secs` seconds and
/// `nanos` nanoseconds: the instant at which that time is over, or the last instant that
/// can be written down if it lies beyond.
pub open spec fn deadline_after(now: int, secs: u64, nanos: u32) -> int {
    let end = now + secs * NANOS_PER_SEC + nanos;
    if end <= last_instant() {
        end
    } else {
        last_instant()
    }
}

impl Timespec {
    /// The value is in normal form: less than a second's worth of nanoseconds.
    #[verifier::type_invariant]
    closed spec fn wf(self) -> bool {
        0 <= self.nsec < NANOS_PER_SEC
    }

    /// The instant this value stands for, in nanoseconds since the epoch.
    pub closed spec fn instant(self) -> int {
        self.sec * NANOS_PER_SEC + self.nsec
    }

    /// Makes the value that stands for `sec` seconds and `nsec` nanoseconds, if that is
    /// less than a second's worth of nanoseconds.
    pub fn new(sec: i64, nsec: i64) -> (made: Option<Timespec>)
        ensures
            made is Some <==> 0 <= nsec < NANOS_PER_SEC,
            made matches Some(t) ==> t.instant() == sec * NANOS_PER_SEC + nsec,
    {
        if 0 <= nsec && nsec < NANOS_PER_SEC {
            Some(Timespec { sec, nsec })
        } else {
            None
        }
    }

    /// The whole seconds of the instant.
    pub fn sec(&self) -> (sec: i64)
        ensures
            sec == self.instant() / (NANOS_PER_SEC as int),
    {
        proof {
            use_type_invariant(self);
            lemma_split(self.instant(), self.sec as int, self.nsec as int);
        }
        self.sec
    }

    /// The nanoseconds of the instant beyond its whole seconds.
    pub fn nsec(&self) -> (nsec: i64)
        ensures
            nsec == self.instant() % (NANOS_PER_SEC as int),
            0 <= nsec < NANOS_PER_SEC,
    {
        proof {
            use_type_invariant(self);
            lemma_split(self.instant(), self.sec as int, self.nsec as int);
        }
        self.nsec
    }

    /// Computes the deadline of a wait that starts now, at `self`, and may last `secs`
    /// seconds and `nanos` nanoseconds. A wait that is interrupted is resumed with the
    /// same deadline, so an interruption costs nothing of the time allowed.
    pub fn deadline(self, secs: u64, nanos: u32) -> (end: Timespec)
        ensures
            end.instant() == deadline_after(self.instant(), secs, nanos),
    {
        proof {
            use_type_invariant(self);
        }
        let nsec_sum: i128 = self.nsec as i128 + nanos as i128;
        let carry: i128 = nsec_sum / 1_000_000_000;
        let nsec: i128 = nsec_sum % 1_000_000_000;
        let sec: i128 = self.sec as i128 + secs as i128 + carry;
        proof {
            let end = self.instant() + secs * NANOS_PER_SEC + nanos;
            assert(end == sec * 1_000_000_000 + nsec) by (nonlinear_arith)
                requires
                    end == self.sec * 1_000_000_000 + self.nsec + secs * 1_000_000_000 + nanos,
                    nsec_sum == self.nsec + nanos,
                    nsec_sum == carry * 1_000_000_000 + nsec,
                    sec == self.sec + secs + carry,
            ;
            assert(sec > i64::MAX <==> end > last_instant()) by (nonlinear_arith)
                requires
                    end == sec * 1_000_000_000 + nsec,
                    0 <= nsec < 1_000_000_000,
                    last_instant() == i64::MAX * 1_000_000_000 + 999_999_999,
            ;
        }
        if sec > i64::MAX as i128 {
            Timespec { sec: i64::MAX, nsec: NANOS_PER_SEC - 1 }
        } else {
            Timespec { sec: sec as i64, nsec: nsec as i64 }
        }
    }
}

/// Seconds and nanoseconds are the quotient and the remainder of the instant they make.
proof fn lemma_split(instant: int, sec: int, nsec: int)
    requires
        instant == sec * NANOS_PER_SEC + nsec,
        0 <= nsec < NANOS_PER_SEC,
    ensures
        instant / (NANOS_PER_SEC as int) == sec,
        instant % (NANOS_PER_SEC as int) == nsec,
{
    assert(instant / 1_000_000_000 == sec && instant % 1_000_000_000 == nsec)
        by (nonlinear_arith)
        requires
            instant == sec * 1_000_000_000 + nsec,
            0 <= nsec < 1_000_000_000,
    ;
}

impl ErrorCodes {
    /// Whether these are the error numbers of the platform: each is what reading the
    /// constant of that name from the C library gave.
    pub closed spec fn is_native(self) -> bool {
        &&& call_ensures(errno_interrupted, (), self.interrupted)
        &&& call_ensures(errno_again, (), self.again)
        &&& call_ensures(errno_timed_out, (), self.timed_out)
    }

    /// Whether the three error numbers differ from one another, so that each answer of
    /// the system has one reading.
    pub open spec fn distinct(self) -> bool {
        &&& self.interrupted != self.again
        &&& self.interrupted != self.timed_out
        &&& self.again != self.timed_out
    }

    /// Tests whether the three error numbers differ from one another. A backend makes
    /// this test once, on the numbers of its platform, before it relies on the readers:
    /// only then is an interruption never taken for a refusal or a timeout.
    pub fn are_distinct(&self) -> (ok: bool)
        ensures
            ok == self.distinct(),
    {
        self.interrupted != self.again && self.interrupted != self.timed_out && self.again
            != self.timed_out
    }

    /// The error numbers of the platform this library is built for: `EINTR` for an
    /// interruption, `EAGAIN` for a call that would have had to block, and `ETIMEDOUT`
    /// for a timeout.
    pub fn native() -> (codes: ErrorCodes)
        ensures
            codes.is_native(),
    {
        ErrorCodes {
            interrupted: errno_interrupted(),
            again: errno_again(),
            timed_out: errno_timed_out(),
        }
    }

    /// Reads the answer of `sem_wait`.
    pub fn read_wait(&self, res: i32, errno: i32) -> (attempt: Attempt)
        ensures
            attempt == wait_attempt(*self, res, errno),
    {
        if res != -1 {
            Attempt::Acquired
        } else if errno == self.interrupted {
            Attempt::Interrupted
        } else {
            Attempt::Unexpected
        }
    }

    /// Reads the answer of `sem_trywait`.
    pub fn read_try_wait(&self, res: i32, errno: i32) -> (attempt: Attempt)
        ensures
            attempt == try_wait_attempt(*self, res, errno),
    {
        if res != -1 {
            Attempt::Acquired
        } else if errno == self.again {
            Attempt::Unavailable
        } else if errno == self.interrupted {
            Attempt::Interrupted
        } else {
            Attempt::Unexpected
        }
    }

    /// Reads the answer of `sem_timedwait`.
    pub fn read_timed_wait(&self, res: i32, errno: i32) -> (attempt: Attempt)
        ensures
            attempt == timed_wait_attempt(*self, res, errno),
    {
        if res != -1 {
            Attempt::Acquired
        } else if errno == self.timed_out || errno == self.again {
            Attempt::Unavailable
        } else if errno == self.interrupted {
            Attempt::Interrupted
        } else {
            Attempt::Unexpected
        }
    }
}

/// Reads the answer of `sem_init`: the semaphore exists exactly when the call returned 0.
pub fn created(res: i32) -> (ok: bool)
    ensures
        ok == created_by(res),
{
    res == 0
}

/// Tells what `post` reports, from the value that `sem_getvalue` gave just before the
/// post: a sleeper was there exactly when the semaphore stood at 0.
pub fn woke_sleeper(value_before: i32) -> (woke: bool)
    ensures
        woke == woke_by(value_before),
{
    value_before == 0
}

/// A wait returns only with the decrement made: whatever `sem_wait` answers, the caller
/// hears of it exactly when the call went through, and then hears `true`.
pub proof fn wait_returns_only_acquired(codes: ErrorCodes, res: i32, errno: i32)
    ensures
        verdict_of(wait_attempt(codes, res, errno)) == if res != -1 {
            Some(true)
        } else {
            None::<bool>
        },
{
}

/// An interruption is never reported: with error numbers that have passed the test of
/// `are_distinct`, a call that a signal cut short is made again, whichever of the three
/// waits it was.
pub proof fn interruption_is_never_reported(codes: ErrorCodes, errno: i32)
    requires
        codes.distinct(),
        errno == codes.interrupted,
    ensures
        verdict_of(wait_attempt(codes, -1i32, errno)) is None,
        verdict_of(try_wait_attempt(codes, -1i32, errno)) is None,
        verdict_of(timed_wait_attempt(codes, -1i32, errno)) is None,
{
}

/// The two waits that may give up answer `true` exactly when the call went through, and
/// `false` exactly when the system said that it would have had to block or that the time
/// ran out.
pub proof fn refusals_are_reported_as_false(codes: ErrorCodes, res: i32, errno: i32)
    ensures
        verdict_of(try_wait_attempt(codes, res, errno)) == Some(true) <==> res != -1,
        verdict_of(timed_wait_attempt(codes, res, errno)) == Some(true) <==> res != -1,
        verdict_of(try_wait_attempt(codes, res, errno)) == Some(false) <==> res == -1 && errno
            == codes.again,
        verdict_of(timed_wait_attempt(codes, res, errno)) == Some(false) <==> res == -1 && (
        errno == codes.timed_out || errno == codes.again),
{
}

/// A deadline never lies before the start of the wait, and it is the exact end of the
/// time allowed wherever that end can be written down.
pub proof fn deadline_is_not_before_now(now: int, secs: u64, nanos: u32)
    requires
        now <= last_instant(),
    ensures
        now <= deadline_after(now, secs, nanos) <= last_instant(),
        now + secs * NANOS_PER_SEC + nanos <= last_instant() ==> deadline_after(now, secs, nanos)
            == now + secs * NANOS_PER_SEC + nanos,
        deadline_after(now, 0, 0) == now,
{
    assert(secs * NANOS_PER_SEC >= 0) by (nonlinear_arith)
        requires
            secs >= 0,
            NANOS_PER_SEC == 1_000_000_000,
    ;
}

} // verus!
