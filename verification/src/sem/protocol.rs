//! The bookkeeping of a counting semaphore and its guards: what each operation does to the
//! count, and the proof that guards account for the decrements they stand for.

use vstd::prelude::*;

verus! {

/// One operation on the semaphore, by any thread.
pub enum Move {
    /// A `wait` returns.
    Wait,
    /// A `try_wait` is made.
    TryWait,
    /// A `post` is made.
    Post,
    /// A `lock` returns its guard.
    Lock,
    /// A `try_lock` is made.
    TryLock,
    /// A guard is released.
    Release,
}

/// A semaphore and the decrements that are outstanding on it.
pub struct Ledger {
    /// The value the semaphore was created with.
    pub initial: nat,
    /// Its value now.
    pub count: nat,
    /// The number of live guards.
    pub guards: nat,
    /// The number of decrements made without a guard.
    pub waits: nat,
    /// The number of posts made without a guard.
    pub posts: nat,
}

impl Ledger {
    /// A semaphore just created with the value `initial`.
    pub open spec fn init(initial: nat) -> Ledger {
        Ledger { initial, count: initial, guards: 0, waits: 0, posts: 0 }
    }

    /// Whether an attempt to decrement goes through: what `try_wait` and `try_lock` answer.
    pub open spec fn available(self) -> bool {
        self.count > 0
    }

    /// How far the count is below what it was created with and has been posted up to.
    pub open spec fn deficit(self) -> int {
        self.initial + self.posts - self.count
    }

    /// Whether `m` can happen now: a blocking wait returns only when it could decrement,
    /// and only a live guard can be released.
    pub open spec fn enabled(self, m: Move) -> bool {
        match m {
            Move::Wait => self.available(),
            Move::Lock => self.available(),
            Move::Release => self.guards > 0,
            _ => true,
        }
    }

    /// The ledger after `m`.
    pub open spec fn next(self, m: Move) -> Ledger {
        match m {
            Move::Wait => Ledger { count: (self.count - 1) as nat, waits: self.waits + 1, ..self },
            Move::TryWait => if self.available() {
                Ledger { count: (self.count - 1) as nat, waits: self.waits + 1, ..self }
            } else {
                self
            },
            Move::Post => Ledger { count: self.count + 1, posts: self.posts + 1, ..self },
            Move::Lock => Ledger { count: (self.count - 1) as nat, guards: self.guards + 1, ..self },
            Move::TryLock => if self.available() {
                Ledger { count: (self.count - 1) as nat, guards: self.guards + 1, ..self }
            } else {
                self
            },
            Move::Release => Ledger {
                count: self.count + 1,
                guards: (self.guards - 1) as nat,
                ..self
            },
        }
    }

    /// Whether each of `moves` can happen in turn, starting from here.
    pub open spec fn admits(self, moves: Seq<Move>) -> bool
        decreases moves.len(),
    {
        moves.len() == 0 || (self.admits(moves.drop_last()) && self.after(
            moves.drop_last(),
        ).enabled(moves.last()))
    }

    /// The ledger after `moves` have happened in turn.
    pub open spec fn after(self, moves: Seq<Move>) -> Ledger
        decreases moves.len(),
    {
        if moves.len() == 0 {
            self
        } else {
            self.after(moves.drop_last()).next(moves.last())
        }
    }

    /// Every decrement is accounted for: by a live guard or by a wait made without one.
    pub open spec fn inv(self) -> bool {
        self.count + self.guards + self.waits == self.initial + self.posts
    }

    /// Every ledger reached from a fresh one is balanced.
    pub proof fn lemma_reach_inv(initial: nat, moves: Seq<Move>)
        requires
            Self::init(initial).admits(moves),
        ensures
            Self::init(initial).after(moves).inv(),
            Self::init(initial).after(moves).initial == initial,
        decreases moves.len(),
    {
        if moves.len() > 0 {
            Self::lemma_reach_inv(initial, moves.drop_last());
        }
    }

    /// No decrement comes from nowhere: the waits that have returned and the guards that
    /// live never outnumber the initial value and the posts made so far. On a semaphore
    /// created with 0, a wait returns only after a post that no other wait has used up.
    pub proof fn every_wait_has_its_post(initial: nat, moves: Seq<Move>)
        requires
            Self::init(initial).admits(moves),
        ensures
            Self::init(initial).after(moves).waits + Self::init(initial).after(moves).guards
                <= initial + Self::init(initial).after(moves).posts,
            Self::init(initial).after(moves).posts == 0 && initial == 0 ==> !Self::init(
                initial,
            ).after(moves).enabled(Move::Wait) && !Self::init(initial).after(moves).available(),
    {
        Self::lemma_reach_inv(initial, moves);
    }

    /// Taking a guard and giving it straight back leaves the semaphore as it was: one
    /// decrement, one post, and no guard, wait or post on the books that was not there
    /// before.
    pub proof fn guard_round_trip(self)
        requires
            self.enabled(Move::Lock),
        ensures
            self.next(Move::Lock).enabled(Move::Release),
            self.next(Move::Lock).next(Move::Release) == self,
            self.next(Move::TryLock).next(Move::Release) == self,
    {
    }

    /// A `try_lock` that is refused changes nothing and leaves no guard to release.
    pub proof fn refused_try_leaves_no_guard(self)
        requires
            !self.available(),
        ensures
            self.next(Move::TryLock) == self,
            self.next(Move::TryWait) == self,
    {
    }

    /// The live guards never exceed the deficit of the semaphore, and they are the whole
    /// of it when every decrement has been made through a guard.
    pub proof fn guards_within_deficit(initial: nat, moves: Seq<Move>)
        requires
            Self::init(initial).admits(moves),
        ensures
            Self::init(initial).after(moves).guards <= Self::init(initial).after(moves).deficit(),
            Self::init(initial).after(moves).waits == 0 ==> Self::init(initial).after(
                moves,
            ).guards == Self::init(initial).after(moves).deficit(),
    {
        Self::lemma_reach_inv(initial, moves);
    }
}

} // verus!
