//! The locking protocol of the semaphore based mutex, played by any number of threads whose
//! steps interleave freely, and the proof that it keeps them apart.
//!
//! Each move is one atomic operation of `lock`, `try_lock` or `unlock`, decided by the same
//! rules as the executable code. Between taking and releasing the lock a thread may
//! increment a counter that nothing else protects, in two steps: it reads the counter,
//! then writes back one more than it read.

use crate::mutex::sem::{may_take, must_wait, must_wake};
use crate::tally::{
    lemma_tally_counts, lemma_tally_counts_two, lemma_tally_finds, lemma_tally_none,
    lemma_tally_update, tally,
};
use vstd::prelude::*;

verus! {

/// Where one thread stands with respect to the mutex.
pub enum Phase {
    /// Neither holding the lock nor asking for it.
    Away,
    /// Raised the counter, found the lock taken, and sleeps on the semaphore.
    Queued,
    /// Holds the lock and has not touched the unprotected counter yet.
    Inside,
    /// Holds the lock and has read the unprotected counter.
    Loaded,
    /// Holds the lock and has written the unprotected counter back.
    Stored,
    /// Lowered the counter while others were queued, and owes the semaphore one post.
    Leaving,
}

/// One atomic step of the thread whose index it carries.
pub enum Move {
    /// The increment of `lock`.
    Enter(int),
    /// The return of the semaphore wait of `lock`.
    Wake(int),
    /// The compare-and-swap of `try_lock`.
    Try(int),
    /// The holder reads the unprotected counter.
    Read(int),
    /// The holder writes back one more than it read.
    Write(int),
    /// The decrement of `unlock`.
    Exit(int),
    /// The post of `unlock`.
    Post(int),
}

/// A mutex together with the threads that use it.
pub struct Benaphore {
    /// The atomic counter.
    pub count: nat,
    /// The semaphore's value.
    pub permits: nat,
    /// Where each thread stands.
    pub phases: Seq<Phase>,
    /// The counter that holders increment and nothing but the lock protects.
    pub shared: nat,
    /// What each thread last read from `shared`.
    pub copies: Seq<nat>,
    /// How many times the lock has been taken.
    pub acquisitions: nat,
    /// How many times the lock has been given back without an increment in between.
    pub idle: nat,
}

impl Move {
    /// The thread that makes this move.
    pub open spec fn thread(self) -> int {
        match self {
            Move::Enter(t) => t,
            Move::Wake(t) => t,
            Move::Try(t) => t,
            Move::Read(t) => t,
            Move::Write(t) => t,
            Move::Exit(t) => t,
            Move::Post(t) => t,
        }
    }
}

impl Benaphore {
    /// A fresh mutex and `threads` threads that have not touched it.
    pub open spec fn init(threads: nat) -> Benaphore {
        Benaphore {
            count: 0,
            permits: 0,
            phases: Seq::new(threads, |t: int| Phase::Away),
            shared: 0,
            copies: Seq::new(threads, |t: int| 0nat),
            acquisitions: 0,
            idle: 0,
        }
    }

    /// How many threads stand at `phase`.
    pub open spec fn at(self, phase: Phase) -> nat {
        tally(self.phases, phase)
    }

    /// How many threads hold the lock.
    pub open spec fn holders(self) -> nat {
        self.at(Phase::Inside) + self.at(Phase::Loaded) + self.at(Phase::Stored)
    }

    /// Whether thread `t` holds the lock.
    pub open spec fn holds(self, t: int) -> bool {
        0 <= t < self.phases.len() && (self.phases[t] == Phase::Inside || self.phases[t]
            == Phase::Loaded || self.phases[t] == Phase::Stored)
    }

    /// Whether `m` can be made now: its thread stands where the move starts, and a wait
    /// returns only when the semaphore has a permit to take.
    pub open spec fn enabled(self, m: Move) -> bool {
        &&& 0 <= m.thread() < self.phases.len()
        &&& match m {
            Move::Enter(t) => self.phases[t] == Phase::Away,
            Move::Wake(t) => self.phases[t] == Phase::Queued && self.permits > 0,
            Move::Try(t) => self.phases[t] == Phase::Away,
            Move::Read(t) => self.phases[t] == Phase::Inside,
            Move::Write(t) => self.phases[t] == Phase::Loaded,
            Move::Exit(t) => self.phases[t] == Phase::Inside || self.phases[t] == Phase::Stored,
            Move::Post(t) => self.phases[t] == Phase::Leaving,
        }
    }

    /// The state after `m`.
    pub open spec fn next(self, m: Move) -> Benaphore {
        match m {
            Move::Enter(t) => if must_wait(self.count as int) {
                Benaphore {
                    count: self.count + 1,
                    phases: self.phases.update(t, Phase::Queued),
                    ..self
                }
            } else {
                Benaphore {
                    count: self.count + 1,
                    phases: self.phases.update(t, Phase::Inside),
                    acquisitions: self.acquisitions + 1,
                    ..self
                }
            },
            Move::Wake(t) => Benaphore {
                permits: (self.permits - 1) as nat,
                phases: self.phases.update(t, Phase::Inside),
                acquisitions: self.acquisitions + 1,
                ..self
            },
            Move::Try(t) => if may_take(self.count as int) {
                Benaphore {
                    count: 1,
                    phases: self.phases.update(t, Phase::Inside),
                    acquisitions: self.acquisitions + 1,
                    ..self
                }
            } else {
                self
            },
            Move::Read(t) => Benaphore {
                phases: self.phases.update(t, Phase::Loaded),
                copies: self.copies.update(t, self.shared),
                ..self
            },
            Move::Write(t) => Benaphore {
                phases: self.phases.update(t, Phase::Stored),
                shared: self.copies[t] + 1,
                ..self
            },
            Move::Exit(t) => Benaphore {
                count: (self.count - 1) as nat,
                phases: self.phases.update(
                    t,
                    if must_wake(self.count as int) {
                        Phase::Leaving
                    } else {
                        Phase::Away
                    },
                ),
                idle: if self.phases[t] == Phase::Inside {
                    self.idle + 1
                } else {
                    self.idle
                },
                ..self
            },
            Move::Post(t) => Benaphore {
                permits: self.permits + 1,
                phases: self.phases.update(t, Phase::Away),
                ..self
            },
        }
    }

    /// Whether each of `moves` can be made in turn, starting from here.
    pub open spec fn admits(self, moves: Seq<Move>) -> bool
        decreases moves.len(),
    {
        moves.len() == 0 || (self.admits(moves.drop_last()) && self.after(
            moves.drop_last(),
        ).enabled(moves.last()))
    }

    /// The state after making `moves` in turn.
    pub open spec fn after(self, moves: Seq<Move>) -> Benaphore
        decreases moves.len(),
    {
        if moves.len() == 0 {
            self
        } else {
            self.after(moves.drop_last()).next(moves.last())
        }
    }

    /// What holds of every state that the protocol can reach.
    ///
    /// The counter is the number of threads that hold the lock or queue for it. While it is
    /// positive exactly one token exists: a holder, a post that is owed, or a permit in the
    /// semaphore. The lock has been taken once for every increment of the shared counter
    /// that is finished or can still be made, and once for every time it was given back
    /// without one; a holder's copy of the shared counter is current.
    pub open spec fn inv(self) -> bool {
        &&& self.copies.len() == self.phases.len()
        &&& self.count == self.at(Phase::Queued) + self.holders()
        &&& self.holders() + self.at(Phase::Leaving) + self.permits == (if self.count > 0 {
            1nat
        } else {
            0nat
        })
        &&& self.acquisitions == self.shared + self.idle + self.at(Phase::Inside) + self.at(
            Phase::Loaded,
        )
        &&& forall|t: int|
            0 <= t < self.phases.len() && self.phases[t] == Phase::Loaded ==> self.copies[t]
                == self.shared
    }

    /// How the count of every phase changes when thread `t` moves to `to`.
    proof fn lemma_moved(self, t: int, to: Phase)
        requires
            0 <= t < self.phases.len(),
        ensures
            forall|phase: Phase|
                tally(#[trigger] self.phases.update(t, to), phase) + (if self.phases[t] == phase {
                    1nat
                } else {
                    0nat
                }) == tally(self.phases, phase) + (if to == phase {
                    1nat
                } else {
                    0nat
                }),
    {
        assert forall|phase: Phase|
            tally(#[trigger] self.phases.update(t, to), phase) + (if self.phases[t] == phase {
                1nat
            } else {
                0nat
            }) == tally(self.phases, phase) + (if to == phase {
                1nat
            } else {
                0nat
            }) by {
            lemma_tally_update(self.phases, t, to, phase);
        }
    }

    /// The fresh state satisfies the invariant.
    pub proof fn lemma_init_inv(threads: nat)
        ensures
            Self::init(threads).inv(),
    {
        let s = Self::init(threads);
        lemma_tally_none(s.phases, Phase::Queued);
        lemma_tally_none(s.phases, Phase::Inside);
        lemma_tally_none(s.phases, Phase::Loaded);
        lemma_tally_none(s.phases, Phase::Stored);
        lemma_tally_none(s.phases, Phase::Leaving);
    }

    /// Every move keeps the invariant.
    pub proof fn lemma_next_inv(self, m: Move)
        requires
            self.inv(),
            self.enabled(m),
        ensures
            self.next(m).inv(),
    {
        let t = m.thread();
        let after = self.next(m);
        lemma_tally_counts(self.phases, t, self.phases[t]);
        self.lemma_moved(t, after.phases[t]);
        if after.phases != self.phases {
            assert(after.phases =~= self.phases.update(t, after.phases[t]));
        }
        match m {
            Move::Write(_) => {
                assert forall|u: int|
                    0 <= u < after.phases.len() && after.phases[u] == Phase::Loaded implies false by {
                    lemma_tally_counts(after.phases, u, Phase::Loaded);
                }
            },
            _ => {},
        }
    }

    /// Every state reached from the fresh one satisfies the invariant.
    pub proof fn lemma_reach_inv(threads: nat, moves: Seq<Move>)
        requires
            Self::init(threads).admits(moves),
        ensures
            Self::init(threads).after(moves).inv(),
        decreases moves.len(),
    {
        if moves.len() == 0 {
            Self::lemma_init_inv(threads);
        } else {
            Self::lemma_reach_inv(threads, moves.drop_last());
            Self::init(threads).after(moves.drop_last()).lemma_next_inv(moves.last());
        }
    }

    /// Two different threads never hold the lock at once.
    proof fn lemma_one_holder(self, a: int, b: int)
        requires
            self.holders() <= 1,
            self.holds(a),
            self.holds(b),
        ensures
            a == b,
    {
        if a != b {
            let (lo, hi) = if a < b {
                (a, b)
            } else {
                (b, a)
            };
            if self.phases[lo] == self.phases[hi] {
                lemma_tally_counts_two(self.phases, lo, hi, self.phases[lo]);
            } else {
                lemma_tally_counts(self.phases, lo, self.phases[lo]);
                lemma_tally_counts(self.phases, hi, self.phases[hi]);
            }
        }
    }

    /// Mutual exclusion: however the steps of the threads interleave, at most one thread
    /// holds the lock, so two threads that hold it are one and the same.
    pub proof fn mutual_exclusion(threads: nat, moves: Seq<Move>, a: int, b: int)
        requires
            Self::init(threads).admits(moves),
        ensures
            Self::init(threads).after(moves).holders() <= 1,
            Self::init(threads).after(moves).holds(a) && Self::init(threads).after(moves).holds(b)
                ==> a == b,
    {
        let s = Self::init(threads).after(moves);
        Self::lemma_reach_inv(threads, moves);
        if s.holds(a) && s.holds(b) {
            s.lemma_one_holder(a, b);
        }
    }

    /// The counter counts the contenders: it is the number of threads that hold the lock
    /// or queue for it, and while it is positive the lock is held or on its way to a
    /// queued thread.
    pub proof fn counter_counts_contenders(threads: nat, moves: Seq<Move>)
        requires
            Self::init(threads).admits(moves),
        ensures
            ({
                let s = Self::init(threads).after(moves);
                &&& s.count == s.at(Phase::Queued) + s.holders()
                &&& s.count > 0 <==> s.holders() + s.at(Phase::Leaving) + s.permits == 1
                &&& s.count == 0 <==> s.holders() + s.at(Phase::Leaving) + s.permits == 0
            }),
    {
        Self::lemma_reach_inv(threads, moves);
    }

    /// No increment of the shared counter is lost: whenever nobody holds the lock, the
    /// counter equals the number of times the lock has been taken and used for an
    /// increment. Where every holder increments, that is the number of acquisitions.
    pub proof fn increments_are_not_lost(threads: nat, moves: Seq<Move>)
        requires
            Self::init(threads).admits(moves),
            Self::init(threads).after(moves).holders() == 0,
        ensures
            Self::init(threads).after(moves).shared + Self::init(threads).after(moves).idle
                == Self::init(threads).after(moves).acquisitions,
            Self::init(threads).after(moves).idle == 0 ==> Self::init(threads).after(moves).shared
                == Self::init(threads).after(moves).acquisitions,
    {
        Self::lemma_reach_inv(threads, moves);
    }

    /// A wake-up is neither lost nor wasted: while threads queue and nobody holds the lock,
    /// a permit is in the semaphore or on its way, and a permit or a pending post always
    /// finds a thread queued for it.
    pub proof fn handoff_reaches_a_sleeper(threads: nat, moves: Seq<Move>)
        requires
            Self::init(threads).admits(moves),
        ensures
            ({
                let s = Self::init(threads).after(moves);
                &&& s.at(Phase::Queued) > 0 && s.holders() == 0 ==> s.permits + s.at(
                    Phase::Leaving,
                ) == 1
                &&& s.permits + s.at(Phase::Leaving) > 0 ==> s.at(Phase::Queued) > 0
            }),
    {
        Self::lemma_reach_inv(threads, moves);
    }

    /// A queued thread is never stranded: while any thread queues, some thread can make a
    /// move that brings the lock closer to it. Either a permit is there for a sleeper to
    /// take, or a post is owed and can be made, or the holder can go on towards its unlock.
    pub proof fn queued_thread_is_not_stranded(threads: nat, moves: Seq<Move>) -> (m: Move)
        requires
            Self::init(threads).admits(moves),
            Self::init(threads).after(moves).at(Phase::Queued) > 0,
        ensures
            Self::init(threads).after(moves).enabled(m),
            !(m is Enter) && !(m is Try),
    {
        let s = Self::init(threads).after(moves);
        Self::lemma_reach_inv(threads, moves);
        if s.permits > 0 {
            Move::Wake(lemma_tally_finds(s.phases, Phase::Queued))
        } else if s.at(Phase::Leaving) > 0 {
            Move::Post(lemma_tally_finds(s.phases, Phase::Leaving))
        } else if s.at(Phase::Inside) > 0 {
            Move::Exit(lemma_tally_finds(s.phases, Phase::Inside))
        } else if s.at(Phase::Loaded) > 0 {
            Move::Write(lemma_tally_finds(s.phases, Phase::Loaded))
        } else {
            Move::Exit(lemma_tally_finds(s.phases, Phase::Stored))
        }
    }

    /// `try_lock` on a held mutex does not take it and changes nothing.
    pub proof fn try_lock_on_held_fails(threads: nat, moves: Seq<Move>, holder: int, t: int)
        requires
            Self::init(threads).admits(moves),
            Self::init(threads).after(moves).holds(holder),
            Self::init(threads).after(moves).enabled(Move::Try(t)),
        ensures
            Self::init(threads).after(moves).next(Move::Try(t)) == Self::init(threads).after(
                moves,
            ),
    {
        let s = Self::init(threads).after(moves);
        Self::lemma_reach_inv(threads, moves);
        lemma_tally_counts(s.phases, holder, s.phases[holder]);
    }

    /// Once the only contender has unlocked, `try_lock` takes the lock, and the semaphore
    /// has not been touched.
    pub proof fn try_lock_after_unlock_succeeds(
        threads: nat,
        moves: Seq<Move>,
        holder: int,
        t: int,
    )
        requires
            Self::init(threads).admits(moves),
            Self::init(threads).after(moves).enabled(Move::Exit(holder)),
            Self::init(threads).after(moves).count == 1,
            Self::init(threads).after(moves).next(Move::Exit(holder)).enabled(Move::Try(t)),
        ensures
            ({
                let held = Self::init(threads).after(moves);
                let free = held.next(Move::Exit(holder));
                &&& free.phases[holder] == Phase::Away
                &&& free.permits == held.permits
                &&& free.next(Move::Try(t)).holds(t)
            }),
    {
    }

    /// Without contention nothing blocks: on a free mutex `lock` takes the lock at its
    /// first step, the matching `unlock` owes no post, and a `try_lock` that follows
    /// succeeds; the semaphore stays as it was throughout.
    pub proof fn uncontended_lock_never_waits(threads: nat, moves: Seq<Move>, t: int)
        requires
            Self::init(threads).admits(moves),
            Self::init(threads).after(moves).count == 0,
            Self::init(threads).after(moves).enabled(Move::Enter(t)),
        ensures
            ({
                let free = Self::init(threads).after(moves);
                let taken = free.next(Move::Enter(t));
                let given = taken.next(Move::Exit(t));
                let retaken = given.next(Move::Try(t));
                &&& taken.phases[t] == Phase::Inside
                &&& taken.enabled(Move::Exit(t))
                &&& given.phases[t] == Phase::Away
                &&& given.enabled(Move::Try(t))
                &&& retaken.phases[t] == Phase::Inside
                &&& retaken.permits == free.permits
            }),
    {
    }
}

} // verus!
