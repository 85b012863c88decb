//! The protocol of `Once`, played by any number of threads whose steps interleave freely,
//! and the proof that the closure runs at most once, that every caller leaves with the
//! outcome of that one run, and that no joiner is left asleep.
//!
//! Each move is one atomic operation of `call_once`, decided by the same rules as the
//! executable code. Whether the runner gets a semaphore and what its closure returns are
//! not decided by the protocol: the moves that stand for them carry the outcome.
//!
//! Every thread makes one call. A thread that calls twice is two threads here, of which
//! the second makes its first move after the first has returned.

use crate::once::{
    blocks_on, entry_for, runner_result, settled, verdict_tag, Entry, OnceError, COMPLETE, FAIL,
    INCOMPLETE, RUNNING,
};
use crate::tally::{lemma_tally_counts, lemma_tally_none, lemma_tally_update, tally};
use vstd::prelude::*;

verus! {

/// Where one thread stands in its call of `call_once`.
pub enum Step {
    /// Has not looked at the state yet.
    Fresh,
    /// Did not find the run completed at first glance and is about to look again.
    Slow,
    /// Read `INCOMPLETE` and is about to swap `RUNNING` in.
    Claiming,
    /// Won the swap and is about to create the semaphore.
    Creating,
    /// Could not create the semaphore, stored `FAIL`, and is about to publish that there
    /// is nothing to wait on.
    Refusing,
    /// Published the wait object and is about to run the closure.
    Calling,
    /// The closure returned this; about to store the verdict.
    Judged(bool),
    /// Stored the verdict; about to read how many joiners announced themselves.
    Counting(bool),
    /// Posting the semaphore; the number is how many posts are still to come.
    Waking(bool, nat),
    /// Waits for the wait object to be published.
    Joining,
    /// Found the wait object and is about to announce itself.
    Announcing,
    /// Announced itself and is about to read the state again.
    Checking,
    /// Sleeps on the semaphore.
    Blocked,
    /// About to read the state for the last time.
    Settling,
    /// Left `call_once` with this result.
    Returned(Result<(), OnceError>),
}

/// One atomic step of the thread whose index it carries.
pub enum Move {
    /// The load of `is_completed` at the start of `call_once`.
    Peek(int),
    /// The load that opens the slow path.
    Look(int),
    /// The swap of `INCOMPLETE` for `RUNNING`.
    Swap(int),
    /// The runner asks for a semaphore; the flag tells whether it got one. With one it
    /// publishes the wait object, without one it stores `FAIL`.
    Create(int, bool),
    /// The runner that got no semaphore publishes that there is nothing to wait on.
    Refuse(int),
    /// The runner runs its closure; the flag is what the closure returns.
    Call(int, bool),
    /// The runner stores the verdict.
    Store(int),
    /// The runner reads the number of announced joiners.
    Count(int),
    /// The runner posts the semaphore once.
    Post(int),
    /// The runner has no post left to make and returns.
    Finish(int),
    /// A joiner finds what the runner published.
    Find(int),
    /// A joiner announces itself.
    Announce(int),
    /// A joiner reads the state again and goes to sleep if the run is still under way.
    Check(int),
    /// A sleeping joiner takes a permit and wakes.
    Wake(int),
    /// A joiner reads the state for the last time and returns.
    Settle(int),
}

/// A `Once` together with the threads that call it. The runner is written down when the
/// swap is won; nothing in the executable code corresponds to that entry.
pub struct Episode {
    /// The state tag.
    pub tag: u8,
    /// What has been published for joiners: nothing yet, a wait object (`true`), or the
    /// fact that there is none (`false`).
    pub slot: Option<bool>,
    /// The number of joiners that announced themselves.
    pub waiting: nat,
    /// The value of the wait object's semaphore.
    pub permits: nat,
    /// How many times a closure has been run.
    pub runs: nat,
    /// The thread that won the swap, if any has.
    pub runner: Option<int>,
    /// Where each thread stands.
    pub steps: Seq<Step>,
}

impl Move {
    /// The thread that makes this move.
    pub open spec fn thread(self) -> int {
        match self {
            Move::Peek(t) => t,
            Move::Look(t) => t,
            Move::Swap(t) => t,
            Move::Create(t, _) => t,
            Move::Refuse(t) => t,
            Move::Call(t, _) => t,
            Move::Store(t) => t,
            Move::Count(t) => t,
            Move::Post(t) => t,
            Move::Finish(t) => t,
            Move::Find(t) => t,
            Move::Announce(t) => t,
            Move::Check(t) => t,
            Move::Wake(t) => t,
            Move::Settle(t) => t,
        }
    }
}

/// Whether `tag` is one of the two final tags.
pub open spec fn is_final(tag: u8) -> bool {
    tag == COMPLETE || tag == FAIL
}

impl Episode {
    /// A fresh `Once` and `threads` threads that are about to call it.
    pub open spec fn init(threads: nat) -> Episode {
        Episode {
            tag: INCOMPLETE,
            slot: None,
            waiting: 0,
            permits: 0,
            runs: 0,
            runner: None,
            steps: Seq::new(threads, |t: int| Step::Fresh),
        }
    }

    /// How many threads sleep on the semaphore.
    pub open spec fn asleep(self) -> nat {
        tally(self.steps, Step::Blocked)
    }

    /// How many threads have announced themselves and not yet decided whether to sleep.
    pub open spec fn undecided(self) -> nat {
        tally(self.steps, Step::Checking)
    }

    /// Whether thread `t` has left `call_once` with `res`.
    pub open spec fn returned(self, t: int, res: Result<(), OnceError>) -> bool {
        0 <= t < self.steps.len() && self.steps[t] == Step::Returned(res)
    }

    /// This state with thread `t` moved to `step`.
    pub open spec fn moved(self, t: int, step: Step) -> Episode {
        Episode { steps: self.steps.update(t, step), ..self }
    }

    /// Whether `m` can be made now: its thread stands where the move starts, a joiner
    /// finds only what has been published, and a sleeper wakes only by taking a permit.
    pub open spec fn enabled(self, m: Move) -> bool {
        &&& 0 <= m.thread() < self.steps.len()
        &&& match m {
            Move::Peek(t) => self.steps[t] == Step::Fresh,
            Move::Look(t) => self.steps[t] == Step::Slow,
            Move::Swap(t) => self.steps[t] == Step::Claiming,
            Move::Create(t, _) => self.steps[t] == Step::Creating,
            Move::Refuse(t) => self.steps[t] == Step::Refusing,
            Move::Call(t, _) => self.steps[t] == Step::Calling,
            Move::Store(t) => self.steps[t] is Judged,
            Move::Count(t) => self.steps[t] is Counting,
            Move::Post(t) => self.steps[t] is Waking && self.steps[t]->Waking_1 > 0,
            Move::Finish(t) => self.steps[t] is Waking && self.steps[t]->Waking_1 == 0,
            Move::Find(t) => self.steps[t] == Step::Joining && self.slot is Some,
            Move::Announce(t) => self.steps[t] == Step::Announcing,
            Move::Check(t) => self.steps[t] == Step::Checking,
            Move::Wake(t) => self.steps[t] == Step::Blocked && self.permits > 0,
            Move::Settle(t) => self.steps[t] == Step::Settling,
        }
    }

    /// The state after `m`.
    pub open spec fn next(self, m: Move) -> Episode {
        match m {
            Move::Peek(t) => if entry_for(self.tag) == Entry::Done {
                self.moved(t, Step::Returned(Ok(())))
            } else {
                self.moved(t, Step::Slow)
            },
            Move::Look(t) => match entry_for(self.tag) {
                Entry::Done => self.moved(t, Step::Returned(Ok(()))),
                Entry::Poisoned => self.moved(t, Step::Returned(Err(OnceError::Poisoned))),
                Entry::Claim => self.moved(t, Step::Claiming),
                Entry::Join => self.moved(t, Step::Joining),
            },
            Move::Swap(t) => if self.tag == INCOMPLETE {
                Episode { tag: RUNNING, runner: Some(t), ..self.moved(t, Step::Creating) }
            } else {
                match entry_for(self.tag) {
                    Entry::Done => self.moved(t, Step::Returned(Ok(()))),
                    Entry::Poisoned => self.moved(t, Step::Returned(Err(OnceError::Poisoned))),
                    _ => self.moved(t, Step::Joining),
                }
            },
            Move::Create(t, created) => if created {
                Episode { slot: Some(true), ..self.moved(t, Step::Calling) }
            } else {
                Episode { tag: FAIL, ..self.moved(t, Step::Refusing) }
            },
            Move::Refuse(t) => Episode {
                slot: Some(false),
                ..self.moved(t, Step::Returned(runner_result(None)))
            },
            Move::Call(t, ok) => Episode { runs: self.runs + 1, ..self.moved(t, Step::Judged(ok)) },
            Move::Store(t) => {
                let ok = self.steps[t]->Judged_0;
                Episode { tag: verdict_tag(ok), ..self.moved(t, Step::Counting(ok)) }
            },
            Move::Count(t) => {
                let ok = self.steps[t]->Counting_0;
                self.moved(t, Step::Waking(ok, self.waiting))
            },
            Move::Post(t) => {
                let ok = self.steps[t]->Waking_0;
                let left = self.steps[t]->Waking_1;
                Episode {
                    permits: self.permits + 1,
                    ..self.moved(t, Step::Waking(ok, (left - 1) as nat))
                }
            },
            Move::Finish(t) => {
                let ok = self.steps[t]->Waking_0;
                self.moved(t, Step::Returned(runner_result(Some(ok))))
            },
            Move::Find(t) => if self.slot == Some(true) {
                self.moved(t, Step::Announcing)
            } else {
                self.moved(t, Step::Settling)
            },
            Move::Announce(t) => Episode {
                waiting: self.waiting + 1,
                ..self.moved(t, Step::Checking)
            },
            Move::Check(t) => if blocks_on(self.tag) {
                self.moved(t, Step::Blocked)
            } else {
                self.moved(t, Step::Settling)
            },
            Move::Wake(t) => Episode {
                permits: (self.permits - 1) as nat,
                ..self.moved(t, Step::Settling)
            },
            Move::Settle(t) => self.moved(t, Step::Returned(settled(self.tag))),
        }
    }

    /// Whether each of `moves` can be made in turn, starting from here.
    pub open spec fn admits(self, moves: Seq<Move>) -> bool
        decreases moves.len(),
    {
        moves.len() == 0 || (self.admits(moves.drop_last()) && self.after(
            moves.drop_last(),
        ).enabled(moves.last()))
    }

    /// The state after making `moves` in turn.
    pub open spec fn after(self, moves: Seq<Move>) -> Episode
        decreases moves.len(),
    {
        if moves.len() == 0 {
            self
        } else {
            self.after(moves.drop_last()).next(moves.last())
        }
    }

    /// What the shared state looks like from where the runner stands.
    pub open spec fn runner_inv(self, step: Step) -> bool {
        match step {
            Step::Creating => {
                &&& self.tag == RUNNING
                &&& self.slot is None
                &&& self.runs == 0
                &&& self.permits == 0
                &&& self.waiting == 0
            },
            Step::Refusing => {
                &&& self.tag == FAIL
                &&& self.slot is None
                &&& self.runs == 0
                &&& self.permits == 0
                &&& self.waiting == 0
            },
            Step::Calling => {
                &&& self.tag == RUNNING
                &&& self.slot == Some(true)
                &&& self.runs == 0
                &&& self.permits == 0
                &&& self.asleep() + self.undecided() <= self.waiting
            },
            Step::Judged(ok) => {
                &&& self.tag == RUNNING
                &&& self.slot == Some(true)
                &&& self.runs == 1
                &&& self.permits == 0
                &&& self.asleep() + self.undecided() <= self.waiting
            },
            Step::Counting(ok) => {
                &&& self.tag == verdict_tag(ok)
                &&& self.slot == Some(true)
                &&& self.runs == 1
                &&& self.permits == 0
                &&& self.asleep() + self.undecided() <= self.waiting
            },
            Step::Waking(ok, left) => {
                &&& self.tag == verdict_tag(ok)
                &&& self.slot == Some(true)
                &&& self.runs == 1
                &&& self.asleep() <= self.permits + left
            },
            Step::Returned(res) => {
                &&& self.asleep() <= self.permits
                &&& match res {
                    Ok(_) => self.tag == COMPLETE && self.slot == Some(true) && self.runs == 1,
                    Err(OnceError::ClosureFailed) => self.tag == FAIL && self.slot == Some(true)
                        && self.runs == 1,
                    Err(OnceError::NoSemaphore) => self.tag == FAIL && self.slot == Some(false)
                        && self.runs == 0,
                    Err(OnceError::Poisoned) => false,
                }
            },
            _ => false,
        }
    }

    /// What the shared state looks like from where a thread other than the runner stands.
    pub open spec fn joiner_inv(self, step: Step) -> bool {
        match step {
            Step::Fresh => true,
            Step::Slow => true,
            Step::Claiming => true,
            Step::Joining => self.tag != INCOMPLETE,
            Step::Announcing => self.slot == Some(true),
            Step::Checking => self.slot == Some(true),
            Step::Blocked => self.slot == Some(true),
            Step::Settling => is_final(self.tag),
            Step::Returned(res) => is_final(self.tag) && res == settled(self.tag),
            _ => false,
        }
    }

    /// What holds of every state that the protocol can reach.
    pub open spec fn inv(self) -> bool {
        &&& self.tag == INCOMPLETE || self.tag == RUNNING || is_final(self.tag)
        &&& match self.runner {
            None => {
                &&& self.tag == INCOMPLETE
                &&& self.slot is None
                &&& self.runs == 0
                &&& self.permits == 0
                &&& self.waiting == 0
            },
            Some(r) => {
                &&& 0 <= r < self.steps.len()
                &&& self.tag != INCOMPLETE
                &&& self.runner_inv(self.steps[r])
            },
        }
        &&& forall|t: int|
            0 <= t < self.steps.len() && self.runner != Some(t) ==> self.joiner_inv(
                #[trigger] self.steps[t],
            )
    }

    /// How the numbers of sleeping and undecided joiners change when thread `t` moves to
    /// `step`.
    proof fn lemma_moved(self, t: int, step: Step)
        requires
            0 <= t < self.steps.len(),
        ensures
            self.moved(t, step).asleep() + (if self.steps[t] == Step::Blocked {
                1nat
            } else {
                0nat
            }) == self.asleep() + (if step == Step::Blocked {
                1nat
            } else {
                0nat
            }),
            self.moved(t, step).undecided() + (if self.steps[t] == Step::Checking {
                1nat
            } else {
                0nat
            }) == self.undecided() + (if step == Step::Checking {
                1nat
            } else {
                0nat
            }),
    {
        lemma_tally_update(self.steps, t, step, Step::Blocked);
        lemma_tally_update(self.steps, t, step, Step::Checking);
    }

    /// Before anything is published nobody sleeps and nobody is about to.
    proof fn lemma_nobody_joined(self)
        requires
            self.inv(),
            self.slot != Some(true),
        ensures
            self.asleep() == 0,
            self.undecided() == 0,
    {
        assert forall|t: int| 0 <= t < self.steps.len() implies self.steps[t] != Step::Blocked
            && self.steps[t] != Step::Checking by {
            if self.runner != Some(t) {
                assert(self.joiner_inv(self.steps[t]));
            }
        }
        lemma_tally_none(self.steps, Step::Blocked);
        lemma_tally_none(self.steps, Step::Checking);
    }

    /// The fresh state satisfies the invariant.
    pub proof fn lemma_init_inv(threads: nat)
        ensures
            Self::init(threads).inv(),
    {
    }

    /// Every move keeps the invariant.
    pub proof fn lemma_next_inv(self, m: Move)
        requires
            self.inv(),
            self.enabled(m),
        ensures
            self.next(m).inv(),
    {
        let t = m.thread();
        let after = self.next(m);
        self.lemma_moved(t, after.steps[t]);
        assert(after.steps =~= self.steps.update(t, after.steps[t]));
        if self.runner != Some(t) {
            assert(self.joiner_inv(self.steps[t]));
        }
        if self.slot != Some(true) {
            self.lemma_nobody_joined();
        }
        if self.steps[t] == Step::Blocked {
            lemma_tally_counts(self.steps, t, Step::Blocked);
        }
        assert forall|u: int| 0 <= u < after.steps.len() && after.runner != Some(u) implies after.joiner_inv(
            #[trigger] after.steps[u],
        ) by {
            if u != t {
                assert(self.joiner_inv(self.steps[u]));
            }
        }
    }

    /// Every state reached from the fresh one satisfies the invariant.
    pub proof fn lemma_reach_inv(threads: nat, moves: Seq<Move>)
        requires
            Self::init(threads).admits(moves),
        ensures
            Self::init(threads).after(moves).inv(),
            Self::init(threads).after(moves).steps.len() == threads,
    {
        Self::lemma_init_inv(threads);
        Self::init(threads).lemma_after_inv(moves);
    }

    /// From a state that satisfies the invariant every further state does, and once the
    /// tag is final neither the tag nor the number of runs changes again.
    pub proof fn lemma_after_inv(self, moves: Seq<Move>)
        requires
            self.inv(),
            self.admits(moves),
        ensures
            self.after(moves).inv(),
            self.after(moves).steps.len() == self.steps.len(),
            is_final(self.tag) ==> self.after(moves).tag == self.tag && self.after(moves).runs
                == self.runs,
        decreases moves.len(),
    {
        if moves.len() > 0 {
            self.lemma_after_inv(moves.drop_last());
            self.after(moves.drop_last()).lemma_next_inv(moves.last());
        }
    }

    /// The closure runs at most once: however the steps of the callers interleave, and
    /// whatever the closures return, at most one of them has been run.
    pub proof fn runs_at_most_once(threads: nat, moves: Seq<Move>)
        requires
            Self::init(threads).admits(moves),
        ensures
            Self::init(threads).after(moves).runs <= 1,
    {
        Self::lemma_reach_inv(threads, moves);
    }

    /// Whether `step` is one that only the runner takes.
    pub open spec fn is_runner_step(step: Step) -> bool {
        step is Creating || step is Refusing || step is Calling || step is Judged
            || step is Counting || step is Waking
    }

    /// The state goes to `RUNNING` once: two threads that stand in the runner's part are
    /// one and the same, and while the state is `RUNNING` the runner is at work.
    pub proof fn only_one_runner(threads: nat, moves: Seq<Move>, a: int, b: int)
        requires
            Self::init(threads).admits(moves),
            0 <= a < threads,
            0 <= b < threads,
        ensures
            ({
                let s = Self::init(threads).after(moves);
                &&& Self::is_runner_step(s.steps[a]) && Self::is_runner_step(s.steps[b]) ==> a
                    == b
                &&& s.tag == RUNNING ==> s.runner is Some && Self::is_runner_step(
                    s.steps[s.runner->0],
                )
            }),
    {
        let s = Self::init(threads).after(moves);
        Self::lemma_reach_inv(threads, moves);
        if s.runner != Some(a) {
            assert(s.joiner_inv(s.steps[a]));
        }
        if s.runner != Some(b) {
            assert(s.joiner_inv(s.steps[b]));
        }
    }

    /// A caller that leaves with success leaves a completed `Once` behind: the closure has
    /// run exactly once and the state says so.
    pub proof fn success_means_completed(threads: nat, moves: Seq<Move>, t: int)
        requires
            Self::init(threads).admits(moves),
            Self::init(threads).after(moves).returned(t, Ok(())),
        ensures
            Self::init(threads).after(moves).tag == COMPLETE,
            Self::init(threads).after(moves).runs == 1,
    {
        let s = Self::init(threads).after(moves);
        Self::lemma_reach_inv(threads, moves);
        if s.runner != Some(t) {
            assert(s.joiner_inv(s.steps[t]));
        }
    }

    /// Which caller reports what: only the runner reports a failure of its own, and every
    /// other caller reports what the final state says.
    pub proof fn results_follow_the_state(
        threads: nat,
        moves: Seq<Move>,
        t: int,
        res: Result<(), OnceError>,
    )
        requires
            Self::init(threads).admits(moves),
            Self::init(threads).after(moves).returned(t, res),
        ensures
            ({
                let s = Self::init(threads).after(moves);
                &&& is_final(s.tag)
                &&& res is Ok <==> s.tag == COMPLETE
                &&& res == Err::<(), OnceError>(OnceError::ClosureFailed) ==> s.runner == Some(t)
                    && s.runs == 1
                &&& res == Err::<(), OnceError>(OnceError::NoSemaphore) ==> s.runner == Some(t)
                    && s.runs == 0
                &&& res == Err::<(), OnceError>(OnceError::Poisoned) ==> s.runner != Some(t)
            }),
    {
        let s = Self::init(threads).after(moves);
        Self::lemma_reach_inv(threads, moves);
        if s.runner != Some(t) {
            assert(s.joiner_inv(s.steps[t]));
        }
    }

    /// A failure is final: once the state is `FAIL` it stays so whatever happens next, no
    /// closure is run again, and every caller that has left or leaves later reports a
    /// failure.
    pub proof fn failure_is_final(
        threads: nat,
        moves: Seq<Move>,
        later: Seq<Move>,
        t: int,
        res: Result<(), OnceError>,
    )
        requires
            Self::init(threads).admits(moves),
            Self::init(threads).after(moves).tag == FAIL,
            Self::init(threads).after(moves).admits(later),
        ensures
            ({
                let failed = Self::init(threads).after(moves);
                let end = failed.after(later);
                &&& end.tag == FAIL
                &&& end.runs == failed.runs
                &&& end.returned(t, res) ==> res is Err
            }),
    {
        let failed = Self::init(threads).after(moves);
        let end = failed.after(later);
        Self::lemma_reach_inv(threads, moves);
        failed.lemma_after_inv(later);
        if end.returned(t, res) && end.runner != Some(t) {
            assert(end.joiner_inv(end.steps[t]));
        }
    }

    /// A completion is final as well: once the state is `COMPLETE` it stays so, and no
    /// closure is run again.
    pub proof fn completion_is_final(threads: nat, moves: Seq<Move>, later: Seq<Move>)
        requires
            Self::init(threads).admits(moves),
            Self::init(threads).after(moves).tag == COMPLETE,
            Self::init(threads).after(moves).admits(later),
        ensures
            Self::init(threads).after(moves).after(later).tag == COMPLETE,
            Self::init(threads).after(moves).after(later).runs == 1,
    {
        let done = Self::init(threads).after(moves);
        Self::lemma_reach_inv(threads, moves);
        done.lemma_after_inv(later);
    }

    /// Whether the runner has left `call_once`.
    pub open spec fn runner_is_done(self) -> bool {
        match self.runner {
            Some(r) => 0 <= r < self.steps.len() && self.steps[r] is Returned,
            None => false,
        }
    }

    /// The move that thread `t` makes next from where it stands, taking the runner to get
    /// its semaphore and its closure to succeed.
    pub open spec fn own_move(self, t: int) -> Move {
        match self.steps[t] {
            Step::Fresh => Move::Peek(t),
            Step::Slow => Move::Look(t),
            Step::Claiming => Move::Swap(t),
            Step::Creating => Move::Create(t, true),
            Step::Refusing => Move::Refuse(t),
            Step::Calling => Move::Call(t, true),
            Step::Judged(_) => Move::Store(t),
            Step::Counting(_) => Move::Count(t),
            Step::Waking(_, left) => if left > 0 {
                Move::Post(t)
            } else {
                Move::Finish(t)
            },
            Step::Joining => Move::Find(t),
            Step::Announcing => Move::Announce(t),
            Step::Checking => Move::Check(t),
            Step::Blocked => Move::Wake(t),
            _ => Move::Settle(t),
        }
    }

    /// A caller waits for nobody but the runner, and the runner waits for nobody: a caller
    /// that has not returned can make its next move, unless it waits for the wait object
    /// or sleeps on the semaphore, and then the runner has not returned and can make its
    /// own.
    pub proof fn callers_wait_only_for_the_runner(threads: nat, moves: Seq<Move>, t: int)
        requires
            Self::init(threads).admits(moves),
            0 <= t < threads,
            !(Self::init(threads).after(moves).steps[t] is Returned),
        ensures
            ({
                let s = Self::init(threads).after(moves);
                ||| s.enabled(s.own_move(t))
                ||| {
                    &&& s.steps[t] == Step::Joining || s.steps[t] == Step::Blocked
                    &&& s.runner is Some
                    &&& s.runner != Some(t)
                    &&& !s.runner_is_done()
                    &&& s.enabled(s.own_move(s.runner->0))
                }
            }),
    {
        let s = Self::init(threads).after(moves);
        Self::lemma_reach_inv(threads, moves);
        if s.runner != Some(t) {
            assert(s.joiner_inv(s.steps[t]));
        }
        if s.steps[t] == Step::Blocked {
            lemma_tally_counts(s.steps, t, Step::Blocked);
        }
    }

    /// No joiner is left asleep: once the runner has returned, every sleeper has a permit
    /// to wake with.
    pub proof fn sleepers_outlast_no_runner(threads: nat, moves: Seq<Move>, t: int)
        requires
            Self::init(threads).admits(moves),
            0 <= t < threads,
            Self::init(threads).after(moves).steps[t] == Step::Blocked,
            Self::init(threads).after(moves).runner_is_done(),
        ensures
            Self::init(threads).after(moves).asleep() <= Self::init(threads).after(
                moves,
            ).permits,
            Self::init(threads).after(moves).enabled(Move::Wake(t)),
    {
        let s = Self::init(threads).after(moves);
        Self::lemma_reach_inv(threads, moves);
        lemma_tally_counts(s.steps, t, Step::Blocked);
    }

    /// A joiner reads the state for the last time only when the run is over, so what it
    /// reports is the outcome of the run.
    pub proof fn joiners_settle_on_the_outcome(threads: nat, moves: Seq<Move>, t: int)
        requires
            Self::init(threads).admits(moves),
            0 <= t < threads,
            Self::init(threads).after(moves).steps[t] == Step::Settling,
        ensures
            is_final(Self::init(threads).after(moves).tag),
            Self::init(threads).after(moves).next(Move::Settle(t)).returned(
                t,
                if Self::init(threads).after(moves).tag == COMPLETE {
                    Ok(())
                } else {
                    Err(OnceError::Poisoned)
                },
            ),
    {
        let s = Self::init(threads).after(moves);
        Self::lemma_reach_inv(threads, moves);
        if s.runner != Some(t) {
            assert(s.joiner_inv(s.steps[t]));
        }
    }

    /// How many moves one thread has before it at most, not counting the posts that the
    /// runner will owe for joiners that have yet to announce themselves.
    pub open spec fn distance(step: Step) -> nat {
        match step {
            Step::Fresh => 10,
            Step::Slow => 9,
            Step::Claiming => 8,
            Step::Creating => 7,
            Step::Refusing => 6,
            Step::Calling => 5,
            Step::Judged(_) => 4,
            Step::Counting(_) => 3,
            Step::Waking(_, left) => left + 2,
            Step::Joining => 6,
            Step::Announcing => 5,
            Step::Checking => 3,
            Step::Blocked => 2,
            Step::Settling => 1,
            Step::Returned(_) => 0,
        }
    }

    /// The distances of all of `steps` together.
    pub open spec fn distances(steps: Seq<Step>) -> nat
        decreases steps.len(),
    {
        if steps.len() == 0 {
            0
        } else {
            Self::distances(steps.drop_last()) + Self::distance(steps.last())
        }
    }

    /// Whether the runner has read the number of joiners it has to wake.
    pub open spec fn counted(self) -> bool {
        match self.runner {
            Some(r) => 0 <= r < self.steps.len() && (self.steps[r] is Waking
                || self.steps[r] is Returned),
            None => false,
        }
    }

    /// A bound on the number of moves that can still be made: what every thread has
    /// before it, and one post for every joiner that the runner will find announced.
    pub open spec fn moves_left(self) -> nat {
        Self::distances(self.steps) + if self.counted() {
            0
        } else {
            self.waiting
        }
    }

    /// Moving one thread changes the sum of the distances by the change of its own.
    proof fn lemma_distances_update(steps: Seq<Step>, t: int, step: Step)
        requires
            0 <= t < steps.len(),
        ensures
            Self::distances(steps.update(t, step)) + Self::distance(steps[t]) == Self::distances(
                steps,
            ) + Self::distance(step),
        decreases steps.len(),
    {
        let updated = steps.update(t, step);
        if t == steps.len() - 1 {
            assert(updated.drop_last() =~= steps.drop_last());
        } else {
            assert(updated.drop_last() =~= steps.drop_last().update(t, step));
            Self::lemma_distances_update(steps.drop_last(), t, step);
        }
    }

    /// Threads that have not started are ten moves from the end each.
    proof fn lemma_distances_init(threads: nat)
        ensures
            Self::distances(Seq::new(threads, |t: int| Step::Fresh)) == 10 * threads,
        decreases threads,
    {
        let steps = Seq::new(threads, |t: int| Step::Fresh);
        if threads > 0 {
            assert(steps.drop_last() =~= Seq::new((threads - 1) as nat, |t: int| Step::Fresh));
            Self::lemma_distances_init((threads - 1) as nat);
        }
    }

    /// Every move uses up at least one of the moves that are left.
    pub proof fn lemma_next_uses_a_move(self, m: Move)
        requires
            self.inv(),
            self.enabled(m),
        ensures
            self.next(m).moves_left() < self.moves_left(),
    {
        let t = m.thread();
        let after = self.next(m);
        self.lemma_next_inv(m);
        Self::lemma_distances_update(self.steps, t, after.steps[t]);
        assert(after.steps =~= self.steps.update(t, after.steps[t]));
        if self.runner != Some(t) {
            assert(self.joiner_inv(self.steps[t]));
        }
        if let Some(r) = self.runner {
            if r != t {
                assert(after.steps[r] == self.steps[r]);
            }
        }
    }

    /// Every call ends: however the steps of the callers interleave, no more than ten moves
    /// per caller can be made. Together with the fact that some move can be made as long as
    /// a caller has not returned, this means that every caller returns.
    pub proof fn every_run_ends(threads: nat, moves: Seq<Move>)
        requires
            Self::init(threads).admits(moves),
        ensures
            moves.len() + Self::init(threads).after(moves).moves_left() <= 10 * threads,
        decreases moves.len(),
    {
        if moves.len() == 0 {
            Self::lemma_distances_init(threads);
        } else {
            Self::every_run_ends(threads, moves.drop_last());
            Self::lemma_reach_inv(threads, moves.drop_last());
            Self::init(threads).after(moves.drop_last()).lemma_next_uses_a_move(moves.last());
        }
    }
}

} // verus!
