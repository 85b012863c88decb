//! One-time initialization
//!
//! A [`Once`] is a state tag and a slot for the wait object of its one run. Every
//! operation is a short sequence of atomic steps on the two, each followed by a decision
//! on what the step returned. The steps are the moves of [`protocol`], which proves what
//! they achieve together.

pub mod protocol;

use crate::sem::Semaphore;
use core::sync::atomic::{AtomicU32, AtomicU8, Ordering};
use std::sync::OnceLock;
use vstd::prelude::*;

verus! {

/// Tag of a `Once` that nobody has started yet.
pub const INCOMPLETE: u8 = 0x0;

/// Tag of a `Once` whose closure is being run by some thread.
pub const RUNNING: u8 = 0x1;

/// Tag of a `Once` whose closure has returned successfully.
pub const COMPLETE: u8 = 0x2;

/// Tag of a `Once` whose one run has failed.
pub const FAIL: u8 = 0x4;

/// `std::sync::OnceLock`, the slot through which the running thread hands its wait
/// object to the threads that join it. Nothing is assumed about what it holds.
#[verifier::external_type_specification]
#[verifier::external_body]
#[verifier::reject_recursive_types(T)]
pub struct ExOnceLock<T>(OnceLock<T>);

/// Calls `OnceLock::new`, which returns an empty slot.
#[verifier::external_body]
fn empty_slot<T>() -> OnceLock<T> {
    OnceLock::new()
}

/// Calls `OnceLock::set`, which fills the slot unless it is already filled, in which case
/// the value comes back. Which of the two happens depends on other threads and is left open.
#[verifier::external_body]
fn fill_slot<T>(slot: &OnceLock<T>, value: T) -> Result<(), T> {
    slot.set(value)
}

/// Calls `OnceLock::wait`, which blocks until the slot is filled and returns what it holds.
#[verifier::external_body]
fn await_slot<T>(slot: &OnceLock<T>) -> &T {
    slot.wait()
}

/// What `call_once` does next after reading the state tag.
#[derive(Debug, Clone, Copy, PartialEq, Eq, Structural)]
pub enum Entry {
    /// The run has succeeded: return at once.
    Done,
    /// The run has failed: report the failure.
    Poisoned,
    /// Nobody has started: try to become the runner.
    Claim,
    /// Somebody is running: wait for that thread to finish.
    Join,
}

/// Why a call of `call_once` did not find the initialization done.
#[derive(Debug, Clone, Copy, PartialEq, Eq, Structural)]
pub enum OnceError {
    /// This call was the runner and could not create the semaphore its joiners sleep on;
    /// the closure was not run.
    NoSemaphore,
    /// This call was the runner and its closure reported a failure.
    ClosureFailed,
    /// The one run of this `Once` failed, in another call.
    Poisoned,
}

/// The step that a thread reading the tag `tag` takes. Any tag that is none of the four
/// named ones is treated as `RUNNING`.
pub open spec fn entry_for(tag: u8) -> Entry {
    if tag == COMPLETE {
        Entry::Done
    } else if tag == FAIL {
        Entry::Poisoned
    } else if tag == INCOMPLETE {
        Entry::Claim
    } else {
        Entry::Join
    }
}

/// Whether a joiner that reads `tag` after announcing itself goes to sleep: it does while
/// the run is under way.
pub open spec fn blocks_on(tag: u8) -> bool {
    entry_for(tag) == Entry::Join
}

/// The tag that the runner stores when its closure has returned `ok`.
pub open spec fn verdict_tag(ok: bool) -> u8 {
    if ok {
        COMPLETE
    } else {
        FAIL
    }
}

/// What a thread that lost the race or joined the runner reports once it reads `tag`.
pub open spec fn settled(tag: u8) -> Result<(), OnceError> {
    if tag == COMPLETE {
        Ok(())
    } else {
        Err(OnceError::Poisoned)
    }
}

/// What the runner reports: whether it had a semaphore, and if so what its closure said.
pub open spec fn runner_result(ran: Option<bool>) -> Result<(), OnceError> {
    match ran {
        None => Err(OnceError::NoSemaphore),
        Some(true) => Ok(()),
        Some(false) => Err(OnceError::ClosureFailed),
    }
}

/// Whether `res` is what a runner with a semaphore reports of its closure `cb`: success
/// where the closure returned `true`, the closure's failure where it returned `false`.
pub open spec fn reports_closure<F: FnOnce() -> bool>(cb: F, res: Result<(), OnceError>) -> bool {
    ||| res == Ok::<(), OnceError>(()) && cb.ensures((), true)
    ||| res == Err::<(), OnceError>(OnceError::ClosureFailed) && cb.ensures((), false)
}

/// Whether `res` is what a caller that was not the runner can report: the success or the
/// failure of somebody else's run.
pub open spec fn reports_outcome(res: Result<(), OnceError>) -> bool {
    res == Ok::<(), OnceError>(()) || res == Err::<(), OnceError>(OnceError::Poisoned)
}

/// Decides from a state tag whether the initialization has succeeded.
pub fn completed(tag: u8) -> (done: bool)
    ensures
        done == (entry_for(tag) == Entry::Done),
{
    tag == COMPLETE
}

/// Decides from a state tag what a caller does next.
pub fn entry(tag: u8) -> (step: Entry)
    ensures
        step == entry_for(tag),
{
    if tag == COMPLETE {
        Entry::Done
    } else if tag == FAIL {
        Entry::Poisoned
    } else if tag == INCOMPLETE {
        Entry::Claim
    } else {
        Entry::Join
    }
}

/// Decides from the tag read after announcing itself whether a joiner goes to sleep:
/// it does while the run is under way.
pub fn must_block(tag: u8) -> (block: bool)
    ensures
        block == blocks_on(tag),
{
    tag != COMPLETE && tag != FAIL && tag != INCOMPLETE
}

/// The tag the runner stores for a closure that returned `ok`.
pub fn verdict(ok: bool) -> (tag: u8)
    ensures
        tag == verdict_tag(ok),
{
    if ok {
        COMPLETE
    } else {
        FAIL
    }
}

/// What a caller that was not the runner reports after reading `tag`.
pub fn settle(tag: u8) -> (res: Result<(), OnceError>)
    ensures
        res == settled(tag),
{
    if tag == COMPLETE {
        Ok(())
    } else {
        Err(OnceError::Poisoned)
    }
}

/// What the runner reports: `ran` is `None` if it got no semaphore, and what its
/// closure returned otherwise.
pub fn report(ran: Option<bool>) -> (res: Result<(), OnceError>)
    ensures
        res == runner_result(ran),
{
    match ran {
        None => Err(OnceError::NoSemaphore),
        Some(true) => Ok(()),
        Some(false) => Err(OnceError::ClosureFailed),
    }
}

/// The wait object of one run: the semaphore on which joiners sleep and the number of
/// joiners that announced themselves.
struct SemGuard<S> {
    sem: S,
    waiting: AtomicU32,
}

impl<S: Semaphore> SemGuard<S> {
    /// Whether `before` is what announcing a joiner came to, as made by
    /// `AtomicU32::fetch_add` on the number of joiners: the number before.
    spec fn announced(&self, before: u32) -> bool {
        call_ensures(AtomicU32::fetch_add, (&self.waiting, 1u32, Ordering::SeqCst), before)
    }

    /// Whether `tag` is what a joiner read from `state` after announcing itself, by a
    /// sequentially consistent `AtomicU8::load`.
    spec fn checked(state: &AtomicU8, tag: u8) -> bool {
        call_ensures(AtomicU8::load, (state, Ordering::SeqCst), tag)
    }

    /// Whether `joiners` is what the runner read as the number of joiners, by a
    /// sequentially consistent `AtomicU32::load`.
    spec fn counted(&self, joiners: u32) -> bool {
        call_ensures(AtomicU32::load, (&self.waiting, Ordering::SeqCst), joiners)
    }

    /// Whether a `wait` on the semaphore of the wait object has returned.
    spec fn slept(&self) -> bool {
        call_ensures(S::wait, (&self.sem,), ())
    }

    /// Whether `woke` is what a `post` on the semaphore of the wait object returned.
    spec fn posted(&self, woke: bool) -> bool {
        call_ensures(S::post, (&self.sem,), woke)
    }

    /// Whether a joiner has waited on this wait object: it announced itself, read `state`
    /// after that, and where the state still said that the run is under way, a wait on
    /// the semaphore has returned.
    spec fn waited(&self, state: &AtomicU8) -> bool {
        exists|before: u32, tag: u8|
            #![trigger self.announced(before), Self::checked(state, tag)]
            self.announced(before) && Self::checked(state, tag) && (blocks_on(tag)
                ==> self.slept())
    }

    /// Whether the runner has woken the joiners with the posts `posts`: it read the number
    /// of joiners and posted the semaphore once for each.
    spec fn woken(&self, joiners: u32, posts: Seq<bool>) -> bool {
        &&& self.counted(joiners)
        &&& posts.len() == joiners
        &&& forall|i: int| 0 <= i < posts.len() ==> self.posted(#[trigger] posts[i])
    }

    /// Whether `tag` is a final tag that has been stored in `state`, by a sequentially
    /// consistent `AtomicU8::store`.
    spec fn settled_in(state: &AtomicU8, tag: u8) -> bool {
        &&& tag == COMPLETE || tag == FAIL
        &&& call_ensures(AtomicU8::store, (state, tag, Ordering::SeqCst), ())
    }

    /// Announces the caller as a joiner, then sleeps on the semaphore unless `state` shows
    /// that the run is already over. The runner stores the outcome before it reads the
    /// number of joiners, so a joiner that still reads `RUNNING` here has been counted.
    fn wait(&self, state: &AtomicU8)
        ensures
            self.waited(state),
    {
        let before: u32 = self.waiting.fetch_add(1, Ordering::SeqCst);
        assert(self.announced(before));
        self.sleep_while_running(state, Ghost(before));
    }

    /// What a joiner does once it has announced itself, which it must have done before:
    /// it reads `state`, and sleeps on the semaphore if the run is still under way.
    fn sleep_while_running(&self, state: &AtomicU8, Ghost(before): Ghost<u32>)
        requires
            self.announced(before),
        ensures
            exists|tag: u8| #[trigger] Self::checked(state, tag) && (blocks_on(tag) ==> self.slept()),
    {
        let tag: u8 = state.load(Ordering::SeqCst);
        assert(Self::checked(state, tag));
        if must_block(tag) {
            self.sem.wait();
            assert(self.slept());
        }
    }

    /// Posts the semaphore once for every joiner that has announced itself, which the
    /// runner does only after it has stored the outcome `tag` in `state`. Returns the
    /// number of joiners it read, and with it what each post returned.
    fn wake_all(&self, state: &AtomicU8, Ghost(tag): Ghost<u8>) -> (posts: (u32, Ghost<Seq<bool>>))
        requires
            Self::settled_in(state, tag),
        ensures
            self.woken(posts.0, posts.1@),
    {
        let joiners: u32 = self.waiting.load(Ordering::SeqCst);
        assert(self.counted(joiners));
        self.post_times(joiners)
    }

    /// Posts the semaphore of the wait object `times` times, no more and no less. Returns
    /// the number of posts made, and with it what each of them returned.
    fn post_times(&self, times: u32) -> (posts: (u32, Ghost<Seq<bool>>))
        ensures
            posts.0 == times,
            posts.1@.len() == times,
            forall|i: int| 0 <= i < times ==> self.posted(#[trigger] posts.1@[i]),
    {
        let mut posted: u32 = 0;
        let ghost mut woken: Seq<bool> = Seq::empty();
        while posted < times
            invariant
                posted <= times,
                woken.len() == posted,
                forall|i: int| 0 <= i < posted ==> self.posted(#[trigger] woken[i]),
            decreases times - posted,
        {
            let woke = self.sem.post();
            proof {
                assert(self.posted(woke));
                woken = woken.push(woke);
            }
            posted = posted + 1;
        }
        (posted, Ghost(woken))
    }
}

/// A synchronization primitive which can be used to run a one-time initialization.
///
/// The closure given to the first `call_once` runs; every other call waits for that run
/// and shares its outcome. A failed run is final: the closure of a later call is never run.
///
/// The state goes from `INCOMPLETE` to `RUNNING` once, and from there to `COMPLETE` or to
/// `FAIL`, where it stays. The thread that moves it to `RUNNING` is the runner. It creates
/// the semaphore on which the others sleep, and wakes them when it has stored the outcome.
///
/// A closure that calls `call_once` on the same `Once` waits for itself, and a closure
/// that does not return leaves its joiners asleep.
#[verifier::reject_recursive_types(S)]
pub struct Once<S> {
    sem: OnceLock<Option<SemGuard<S>>>,
    state: AtomicU8,
}

impl<S: Semaphore> Once<S> {
    /// Whether this value is as `new` makes it: the state is what `AtomicU8::new` made of
    /// `INCOMPLETE`, and the slot is what `OnceLock::new` made.
    pub closed spec fn is_fresh(&self) -> bool {
        &&& call_ensures(AtomicU8::new, (INCOMPLETE,), self.state)
        &&& call_ensures(empty_slot::<Option<SemGuard<S>>>, (), self.sem)
    }

    /// Whether `tag` is what `is_completed` read from the state, by an acquiring
    /// `AtomicU8::load`.
    pub closed spec fn peeked(&self, tag: u8) -> bool {
        call_ensures(AtomicU8::load, (&self.state, Ordering::Acquire), tag)
    }

    /// Whether `tag` is what the slow path read from the state, by a sequentially
    /// consistent `AtomicU8::load`.
    pub closed spec fn looked(&self, tag: u8) -> bool {
        call_ensures(AtomicU8::load, (&self.state, Ordering::SeqCst), tag)
    }

    /// Whether `swap` is what the swap of the state from `INCOMPLETE` to `RUNNING` came
    /// to, as made by `AtomicU8::compare_exchange`.
    pub closed spec fn swapped(&self, swap: Result<u8, u8>) -> bool {
        call_ensures(
            AtomicU8::compare_exchange,
            (&self.state, INCOMPLETE, RUNNING, Ordering::SeqCst, Ordering::SeqCst),
            swap,
        )
    }

    /// Whether `tag` has been stored in the state, by a sequentially consistent
    /// `AtomicU8::store`.
    pub closed spec fn stored(&self, tag: u8) -> bool {
        call_ensures(AtomicU8::store, (&self.state, tag, Ordering::SeqCst), ())
    }

    /// Whether the runner has published the wait object of its run: one that sleeps on
    /// `sem` and counts its joiners from 0, handed to `OnceLock::set` on the slot.
    pub closed spec fn published(&self, sem: S) -> bool {
        exists|made: SemGuard<S>, back: Result<(), Option<SemGuard<S>>>| #[trigger]
            call_ensures(fill_slot::<Option<SemGuard<S>>>, (&self.sem, Some(made)), back)
                && made.sem == sem && call_ensures(AtomicU32::new, (0u32,), made.waiting)
    }

    /// Whether the runner has published that there is nothing to wait on: `None`, handed
    /// to `OnceLock::set` on the slot.
    pub closed spec fn refused(&self) -> bool {
        exists|back: Result<(), Option<SemGuard<S>>>| #[trigger]
            call_ensures(
                fill_slot::<Option<SemGuard<S>>>,
                (&self.sem, None::<SemGuard<S>>),
                back,
            )
    }

    /// Whether the runner has woken its joiners: it took what `OnceLock::wait` gave from
    /// the slot and, where that is a wait object, read the number of its joiners and
    /// posted its semaphore once for each. The function that does so demands that the
    /// outcome has been stored before.
    pub closed spec fn woke_joiners(&self) -> bool {
        exists|found: Option<SemGuard<S>>, joiners: u32, posts: Seq<bool>|
            #![trigger self.found_in_slot(found), Self::woke_those_of(found, joiners, posts)]
            self.found_in_slot(found) && Self::woke_those_of(found, joiners, posts)
    }

    /// Whether `found` is what `OnceLock::wait` gave from the slot.
    spec fn found_in_slot(&self, found: Option<SemGuard<S>>) -> bool {
        call_ensures(await_slot::<Option<SemGuard<S>>>, (&self.sem,), &found)
    }

    /// Whether the joiners of the wait object in `found`, if there is one, have been woken
    /// with the posts `posts`.
    spec fn woke_those_of(found: Option<SemGuard<S>>, joiners: u32, posts: Seq<bool>) -> bool {
        found matches Some(guard) ==> guard.woken(joiners, posts)
    }

    /// Whether a joiner has waited for the run to end: it took what `OnceLock::wait` gave
    /// from the slot and, where that is a wait object, announced itself to it, read the
    /// state again, and slept on its semaphore if the run was still under way.
    pub closed spec fn joined(&self) -> bool {
        exists|found: Option<SemGuard<S>>| #[trigger]
            self.found_in_slot(found) && (found matches Some(guard) ==> guard.waited(
                &self.state,
            ))
    }

    /// Whether `res` is what a joiner reports: it has waited for the run to end, and `res`
    /// is what the state, read after that, says of the run.
    pub open spec fn join_gives(&self, res: Result<(), OnceError>) -> bool {
        &&& self.joined()
        &&& exists|last: u8| #[trigger] self.looked(last) && res == settled(last)
    }

    /// Whether `res` is what a caller reports that lost the swap and found `now` in the
    /// state: the outcome of a run that is over, and what a joiner reports otherwise.
    pub open spec fn follow_gives(&self, now: u8, res: Result<(), OnceError>) -> bool {
        match entry_for(now) {
            Entry::Done => res == Ok::<(), OnceError>(()),
            Entry::Poisoned => res == Err::<(), OnceError>(OnceError::Poisoned),
            _ => self.join_gives(res),
        }
    }

    /// Whether `res` is what the runner reports when the system gave it `sem`, and the
    /// runner has done its part. Without a semaphore it reports that there is none, and
    /// has stored `FAIL` and published that there is nothing to wait on. With one it
    /// reports what its closure `cb` returned, and has published the wait object, stored
    /// the tag that fits the report, and woken its joiners.
    pub open spec fn create_gives<F: FnOnce() -> bool>(
        &self,
        sem: Option<S>,
        cb: F,
        res: Result<(), OnceError>,
    ) -> bool {
        match sem {
            None => {
                &&& res == runner_result(None)
                &&& self.stored(FAIL)
                &&& self.refused()
            },
            Some(given) => {
                &&& reports_closure(cb, res)
                &&& self.published(given)
                &&& self.stored(verdict_tag(res is Ok))
                &&& self.woke_joiners()
            },
        }
    }

    /// Whether `res` is what the runner reports: what follows from the answer of `S::new`,
    /// asked for a semaphore with the value 0.
    pub open spec fn run_gives<F: FnOnce() -> bool>(
        &self,
        cb: F,
        res: Result<(), OnceError>,
    ) -> bool {
        exists|sem: Option<S>| #[trigger]
            call_ensures(S::new, (0u32,), sem) && self.create_gives(sem, cb, res)
    }

    /// Whether `res` is what a caller reports whose swap came to `swap`: its own run where
    /// the swap went through, and the run it found where not.
    pub open spec fn swap_gives<F: FnOnce() -> bool>(
        &self,
        swap: Result<u8, u8>,
        cb: F,
        res: Result<(), OnceError>,
    ) -> bool {
        match swap {
            Ok(_) => self.run_gives(cb, res),
            Err(now) => self.follow_gives(now, res),
        }
    }

    /// Whether `res` is what a caller reports that read `seen` on the slow path: the
    /// outcome of a run that is over, what a joiner reports of a run that is under way,
    /// and what follows from the swap where no run has started.
    pub open spec fn look_gives<F: FnOnce() -> bool>(
        &self,
        seen: u8,
        cb: F,
        res: Result<(), OnceError>,
    ) -> bool {
        match entry_for(seen) {
            Entry::Done => res == Ok::<(), OnceError>(()),
            Entry::Poisoned => res == Err::<(), OnceError>(OnceError::Poisoned),
            Entry::Join => self.join_gives(res),
            Entry::Claim => exists|swap: Result<u8, u8>| #[trigger]
                self.swapped(swap) && self.swap_gives(swap, cb, res),
        }
    }

    /// Whether `res` is what the slow path reports: what follows from the state it read.
    pub open spec fn slow_gives<F: FnOnce() -> bool>(
        &self,
        cb: F,
        res: Result<(), OnceError>,
    ) -> bool {
        exists|seen: u8| #[trigger] self.looked(seen) && self.look_gives(seen, cb, res)
    }

    /// Whether `res` is what `call_once` reports: success at once where it read that the
    /// run has completed, and what the slow path reports otherwise.
    pub open spec fn call_gives<F: FnOnce() -> bool>(
        &self,
        cb: F,
        res: Result<(), OnceError>,
    ) -> bool {
        exists|first: u8| #[trigger]
            self.peeked(first) && if entry_for(first) == Entry::Done {
                res == Ok::<(), OnceError>(())
            } else {
                self.slow_gives(cb, res)
            }
    }

    /// Every failure of its own that `call_once` reports has its cause: `NoSemaphore` is
    /// reported only where `S::new`, asked for a semaphore with the value 0, returned
    /// none, and `ClosureFailed` only where the closure returned `false`.
    pub proof fn failures_have_their_cause<F: FnOnce() -> bool>(
        &self,
        cb: F,
        res: Result<(), OnceError>,
    )
        requires
            self.call_gives(cb, res),
        ensures
            res == Err::<(), OnceError>(OnceError::NoSemaphore) ==> call_ensures(
                S::new,
                (0u32,),
                None::<S>,
            ),
            res == Err::<(), OnceError>(OnceError::ClosureFailed) ==> cb.ensures((), false),
    {
        let first = choose|first: u8| #[trigger]
            self.peeked(first) && if entry_for(first) == Entry::Done {
                res == Ok::<(), OnceError>(())
            } else {
                self.slow_gives(cb, res)
            };
        if entry_for(first) != Entry::Done {
            let seen = choose|seen: u8| #[trigger]
                self.looked(seen) && self.look_gives(seen, cb, res);
            if entry_for(seen) == Entry::Claim {
                let swap = choose|swap: Result<u8, u8>| #[trigger]
                    self.swapped(swap) && self.swap_gives(swap, cb, res);
                if swap is Ok {
                    let sem = choose|sem: Option<S>| #[trigger]
                        call_ensures(S::new, (0u32,), sem) && self.create_gives(sem, cb, res);
                    if res == Err::<(), OnceError>(OnceError::NoSemaphore) {
                        assert(sem == None::<S>);
                    }
                }
            }
        }
    }

    /// Creates a new instance, on which nothing has run: the state is `INCOMPLETE` and
    /// nothing is published.
    pub fn new() -> (once: Self)
        ensures
            once.is_fresh(),
    {
        Self { sem: empty_slot(), state: AtomicU8::new(INCOMPLETE) }
    }

    /// Returns whether the initialization has succeeded: whether the state, read now, is
    /// `COMPLETE`. A run that is under way or has failed reads as not completed. Never
    /// blocks.
    pub fn is_completed(&self) -> (done: bool)
        ensures
            exists|tag: u8| #[trigger] self.peeked(tag) && done == (entry_for(tag) == Entry::Done),
    {
        let tag: u8 = self.state.load(Ordering::Acquire);
        assert(self.peeked(tag));
        completed(tag)
    }

    /// Runs `cb` unless a run has already been started on this `Once`, in which case it
    /// waits for that run to end. `cb` returns whether the initialization succeeded.
    ///
    /// Returns `Ok` when the initialization has succeeded, in this call or in another. The
    /// runner reports its own failure, `ClosureFailed` or `NoSemaphore`; every other caller
    /// of a failed `Once` gets `Poisoned`, now and later.
    ///
    /// Which of these it is depends on the state that the call finds, which other threads
    /// change as it goes. The contract says what is returned for everything the call can
    /// read from the state and get from the system.
    pub fn call_once<F: FnOnce() -> bool>(&self, cb: F) -> (res: Result<(), OnceError>)
        requires
            cb.requires(()),
        ensures
            self.call_gives(cb, res),
            res == Err::<(), OnceError>(OnceError::ClosureFailed) ==> cb.ensures((), false),
    {
        let done = self.is_completed();
        self.after_peek(done, cb)
    }

    /// What `call_once` does once it has looked whether the run has completed (the move
    /// `Peek`): a completed run ends the call at once, with success.
    fn after_peek<F: FnOnce() -> bool>(&self, done: bool, cb: F) -> (res: Result<(), OnceError>)
        requires
            cb.requires(()),
        ensures
            done ==> res == Ok::<(), OnceError>(()),
            !done ==> self.slow_gives(cb, res),
            res == Err::<(), OnceError>(OnceError::ClosureFailed) ==> cb.ensures((), false),
    {
        if done {
            Ok(())
        } else {
            self.call_inner(cb)
        }
    }

    /// The slow path: read the state (the move `Look`) and go by what it says.
    fn call_inner<F: FnOnce() -> bool>(&self, cb: F) -> (res: Result<(), OnceError>)
        requires
            cb.requires(()),
        ensures
            self.slow_gives(cb, res),
            res == Err::<(), OnceError>(OnceError::ClosureFailed) ==> cb.ensures((), false),
    {
        let seen: u8 = self.state.load(Ordering::SeqCst);
        assert(self.looked(seen));
        self.after_look(seen, cb)
    }

    /// What the slow path does once it has read `seen` from the state: a run that is over
    /// ends the call at once, with success or with `Poisoned`; a run that is under way is
    /// joined; and where none has started the caller tries to become the runner (the move
    /// `Swap`).
    fn after_look<F: FnOnce() -> bool>(&self, seen: u8, cb: F) -> (res: Result<(), OnceError>)
        requires
            cb.requires(()),
        ensures
            self.look_gives(seen, cb, res),
            res == Err::<(), OnceError>(OnceError::ClosureFailed) ==> cb.ensures((), false),
    {
        match entry(seen) {
            Entry::Done => Ok(()),
            Entry::Poisoned => Err(OnceError::Poisoned),
            Entry::Claim => {
                let swap = self.state.compare_exchange(
                    INCOMPLETE,
                    RUNNING,
                    Ordering::SeqCst,
                    Ordering::SeqCst,
                );
                assert(self.swapped(swap));
                self.after_swap(swap, cb)
            },
            Entry::Join => self.join(),
        }
    }

    /// What a caller does once it has tried to swap `RUNNING` in: the one whose swap went
    /// through is the runner and reports its own run, never somebody else's failure; one
    /// whose swap was refused follows the run that it found.
    fn after_swap<F: FnOnce() -> bool>(&self, swap: Result<u8, u8>, cb: F) -> (res: Result<
        (),
        OnceError,
    >)
        requires
            cb.requires(()),
        ensures
            self.swap_gives(swap, cb, res),
            res == Err::<(), OnceError>(OnceError::ClosureFailed) ==> cb.ensures((), false),
    {
        match swap {
            Ok(_) => self.run(cb),
            Err(now) => self.follow(now),
        }
    }

    /// The part of a caller that lost the race for the run, and found `now` in the state
    /// instead: it leaves at once if the run is already over and joins the runner if not.
    fn follow(&self, now: u8) -> (res: Result<(), OnceError>)
        ensures
            self.follow_gives(now, res),
            reports_outcome(res),
    {
        match entry(now) {
            Entry::Done => Ok(()),
            Entry::Poisoned => Err(OnceError::Poisoned),
            Entry::Claim => self.join(),
            Entry::Join => self.join(),
        }
    }

    /// The runner's part: ask for the semaphore of the wait object, with the value 0, and
    /// go on with what the system gave (the move `Create`).
    fn run<F: FnOnce() -> bool>(&self, cb: F) -> (res: Result<(), OnceError>)
        requires
            cb.requires(()),
        ensures
            self.run_gives(cb, res),
            res == Err::<(), OnceError>(OnceError::ClosureFailed) ==> cb.ensures((), false),
    {
        let sem = S::new(0);
        assert(call_ensures(S::new, (0u32,), sem));
        self.after_create(sem, cb)
    }

    /// What the runner does with the semaphore it asked for. With one it publishes the
    /// wait object and goes on to run the closure, store the verdict, and only then wake
    /// the joiners (the moves `Call`, `Store`, `Count`, `Post` and `Finish`); it reports
    /// what the closure returned. Without one it stores `FAIL`, publishes that there is
    /// nothing to wait on (the move `Refuse`), and reports `NoSemaphore`; the closure is
    /// not run.
    fn after_create<F: FnOnce() -> bool>(&self, sem: Option<S>, cb: F) -> (res: Result<
        (),
        OnceError,
    >)
        requires
            cb.requires(()),
        ensures
            self.create_gives(sem, cb, res),
            res == Err::<(), OnceError>(OnceError::ClosureFailed) ==> cb.ensures((), false),
    {
        match sem {
            None => {
                self.state.store(FAIL, Ordering::SeqCst);
                assert(self.stored(FAIL));
                self.publish_refusal();
                report(None)
            },
            Some(sem) => {
                let ghost given = sem;
                let guard = SemGuard { sem, waiting: AtomicU32::new(0) };
                let ghost made = guard;
                let back = fill_slot(&self.sem, Some(guard));
                assert(self.published(given)) by {
                    assert(call_ensures(
                        fill_slot::<Option<SemGuard<S>>>,
                        (&self.sem, Some(made)),
                        back,
                    ));
                }
                self.run_published(cb, Ghost(given))
            },
        }
    }

    /// Publishes that there is nothing to wait on, which a runner without a semaphore
    /// does only after it has stored `FAIL`: a joiner that finds nothing in the slot then
    /// reads a state that is final.
    fn publish_refusal(&self)
        requires
            self.stored(FAIL),
        ensures
            self.refused(),
    {
        let back = fill_slot(&self.sem, None);
        assert(call_ensures(
            fill_slot::<Option<SemGuard<S>>>,
            (&self.sem, None::<SemGuard<S>>),
            back,
        ));
    }

    /// What the runner does once it has published the wait object, which it must have
    /// done before: it runs the closure, stores the tag that fits what the closure
    /// returned, and then wakes the joiners; it reports what the closure returned.
    fn run_published<F: FnOnce() -> bool>(&self, cb: F, Ghost(given): Ghost<S>) -> (res: Result<
        (),
        OnceError,
    >)
        requires
            cb.requires(()),
            self.published(given),
        ensures
            reports_closure(cb, res),
            self.stored(verdict_tag(res is Ok)),
            self.woke_joiners(),
    {
        let ok = cb();
        self.state.store(verdict(ok), Ordering::SeqCst);
        assert(self.stored(verdict_tag(ok)));
        let found = await_slot(&self.sem);
        assert(self.found_in_slot(*found));
        match found {
            Some(guard) => {
                let posts = guard.wake_all(&self.state, Ghost(verdict_tag(ok)));
                assert(Self::woke_those_of(*found, posts.0, posts.1@));
            },
            None => {
                assert(Self::woke_those_of(*found, 0u32, Seq::<bool>::empty()));
            },
        }
        assert(self.woke_joiners());
        report(Some(ok))
    }

    /// A joiner's part: wait until the runner has published its wait object, sleep on it
    /// until the run is over, and report what the state then says (the moves `Find`,
    /// `Announce`, `Check`, `Wake` and `Settle`).
    fn join(&self) -> (res: Result<(), OnceError>)
        ensures
            self.join_gives(res),
            reports_outcome(res),
    {
        let found = await_slot(&self.sem);
        assert(self.found_in_slot(*found));
        match found {
            Some(guard) => guard.wait(&self.state),
            None => {},
        }
        assert(self.joined());
        let last: u8 = self.state.load(Ordering::SeqCst);
        assert(self.looked(last));
        settle(last)
    }
}

} // verus!
