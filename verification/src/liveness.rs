//! When calls come to their end: on endless paths on which threads are scheduled,
//! guards are dropped, and a thread that the call depends on has no bad luck for ever.
use vstd::prelude::*;

use crate::flags::{free, lemma_flag_updates, lemma_stored_flags, locked, released_word};
use crate::protocol::{action_at, queue_entered, Action, Goal, Point};
use crate::system::{has_queue, inv, inv_with, lemma_move, lemma_reachable, locking};
use crate::system::{owns, reachable, unserved, waits, Move, System};

verus! {

/// An endless path: the system at each time, and the thread that moves there with its
/// move.
pub struct Trace<T> {
    pub states: spec_fn(nat) -> System<T>,
    pub moves: spec_fn(nat) -> (u64, Move<T>),
}

/// A thread can take a step of its call now, and not only for no reason.
pub open spec fn runnable<T>(system: System<T>, thread: u64) -> bool {
    &&& action_at(system.point(thread)) != Action::Finish
    &&& system.point(thread) == Point::Park ==> system.tokens.contains(thread)
}

/// A thread at this point tries for the queue's spinlock.
pub open spec fn spinning(point: Point) -> bool {
    point is SpinLoad || point is SpinExchange || point is SpinBackoff
}

/// A thread at this point tries for a lock that it saw free.
pub open spec fn exchanging(point: Point) -> bool {
    point is TryExchange || point is FastExchange
}

/// A call that releases the lock, until it is over.
pub open spec fn releasing(point: Point) -> bool {
    match point {
        Point::SpinLoad { goal, .. } => goal == Goal::Release,
        Point::SpinExchange { goal, .. } => goal == Goal::Release,
        Point::SpinBackoff { goal, .. } => goal == Goal::Release,
        Point::ReleaseFront => true,
        Point::ReleaseStore { .. } => true,
        Point::ReleaseUnpark { .. } => true,
        Point::ReleaseDone => true,
        _ => false,
    }
}

/// A thread at this point takes part in handing the lock over: it waits in the queue,
/// takes the lock out of it, or releases the lock.
pub open spec fn handing_over(point: Point) -> bool {
    waits(point) || point is ClaimStore || releasing(point)
}

impl<T> Trace<T> {
    /// The system at a time.
    pub open spec fn at(self, n: nat) -> System<T> {
        (self.states)(n)
    }

    /// The thread that moves at a time.
    pub open spec fn mover(self, n: nat) -> u64 {
        (self.moves)(n).0
    }

    /// The move that is made at a time.
    pub open spec fn mv(self, n: nat) -> Move<T> {
        (self.moves)(n).1
    }

    /// The move at a time is allowed and leads to the next system.
    pub open spec fn goes_on(self, n: nat) -> bool {
        &&& self.at(n).allows(self.mover(n), self.mv(n))
        &&& self.at(n + 1) == self.at(n).after(self.mover(n), self.mv(n))
    }

    /// The trace is a path of the system without end.
    pub open spec fn is_endless(self) -> bool {
        &&& reachable(self.at(0))
        &&& forall|n: nat| #[trigger] self.goes_on(n)
    }

    /// At a time, a thread moves or has no step that it can take.
    pub open spec fn moves_or_cannot(self, thread: u64, n: nat) -> bool {
        self.mover(n) == thread || !runnable(self.at(n), thread)
    }

    /// From a time on, a thread that can always move does move.
    pub open spec fn scheduled_from(self, thread: u64, n: nat) -> bool {
        exists|m: nat| n <= m && #[trigger] self.moves_or_cannot(thread, m)
    }

    /// At a time, a thread drops its guard.
    pub open spec fn drops_guard(self, thread: u64, n: nat) -> bool {
        self.mover(n) == thread && self.mv(n) is Release
    }

    /// A thread that holds the lock at a time drops its guard some time.
    pub open spec fn released_from(self, thread: u64, n: nat) -> bool {
        self.at(n).point(thread) == Point::Held ==> exists|m: nat|
            n <= m && #[trigger] self.drops_guard(thread, m)
    }

    /// A thread that tries for the queue's spinlock at a time does not try for ever.
    pub open spec fn queue_won_from(self, thread: u64, n: nat) -> bool {
        spinning(self.at(n).point(thread)) ==> exists|m: nat|
            n <= m && !spinning((#[trigger] self.at(m)).point(thread))
    }

    /// At a time, a thread does not try for a free lock, or tries and does not fail for
    /// no reason.
    pub open spec fn exchanges_in_earnest(self, thread: u64, n: nat) -> bool {
        exchanging(self.at(n).point(thread)) ==> self.mover(n) == thread && self.mv(n) == (
        Move::<T>::Act { spurious: false })
    }

    /// A thread that tries for a free lock does not fail for no reason for ever.
    pub open spec fn exchange_made_from(self, thread: u64, n: nat) -> bool {
        exists|m: nat| n <= m && #[trigger] self.exchanges_in_earnest(thread, m)
    }

    /// The lock is handed over: every guard is dropped, and a thread that waits in the
    /// queue, takes the lock out of it or releases the lock is scheduled and does not
    /// fail at the queue's spinlock for ever. Nothing is asked of newcomers.
    pub open spec fn hands_over(self) -> bool {
        &&& forall|thread: u64, n: nat| #[trigger] self.released_from(thread, n)
        &&& forall|thread: u64, n: nat|
            handing_over((#[trigger] self.at(n)).point(thread)) ==> #[trigger] self.scheduled_from(
                thread,
                n,
            )
        &&& forall|thread: u64, n: nat|
            handing_over((#[trigger] self.at(n)).point(thread)) ==> #[trigger] self.queue_won_from(
                thread,
                n,
            )
    }

    /// A thread is scheduled.
    pub open spec fn is_scheduled(self, thread: u64) -> bool {
        forall|n: nat| #[trigger] self.scheduled_from(thread, n)
    }

    /// A thread does not fail at the queue's spinlock for ever.
    pub open spec fn wins_queue(self, thread: u64) -> bool {
        forall|n: nat| #[trigger] self.queue_won_from(thread, n)
    }

    /// The exchanges of a thread do not fail for no reason for ever.
    pub open spec fn makes_exchanges(self, thread: u64) -> bool {
        forall|n: nat| #[trigger] self.exchange_made_from(thread, n)
    }
}

/// The invariant holds all along a trace.
proof fn lemma_inv<T>(trace: Trace<T>, n: nat)
    requires
        trace.is_endless(),
    ensures
        inv(trace.at(n)),
    decreases n,
{
    if n == 0 {
        lemma_reachable(trace.at(0));
    } else {
        let before = (n - 1) as nat;
        lemma_inv(trace, before);
        assert(trace.goes_on(before));
        lemma_move(trace.at(before), trace.mover(before), trace.mv(before));
    }
}

/// What a move leaves as it is: the points and tokens of other threads, and the
/// history.
proof fn lemma_frame<T>(trace: Trace<T>, n: nat, thread: u64)
    requires
        trace.is_endless(),
    ensures
        trace.goes_on(n),
        trace.mover(n) != thread ==> {
            &&& trace.at(n + 1).point(thread) == trace.at(n).point(thread)
            &&& trace.at(n).tokens.contains(thread) ==> trace.at(n + 1).tokens.contains(thread)
        },
        trace.at(n).arrivals.is_prefix_of(trace.at(n + 1).arrivals),
{
    assert(trace.goes_on(n));
}

/// Arrivals are never forgotten.
proof fn lemma_history<T>(trace: Trace<T>, n: nat, m: nat)
    requires
        trace.is_endless(),
        n <= m,
    ensures
        trace.at(n).arrivals.is_prefix_of(trace.at(m).arrivals),
    decreases m - n,
{
    if n < m {
        let before = (m - 1) as nat;
        lemma_history(trace, n, before);
        lemma_frame(trace, before, 0);
        let (a, b, c) = (trace.at(n).arrivals, trace.at(before).arrivals, trace.at(m).arrivals);
        assert(c.take(a.len() as int) =~= a);
    }
}

/// A thread that can move stays where it is until it does move.
proof fn lemma_turn_by<T>(trace: Trace<T>, thread: u64, n: nat, m: nat) -> (k: nat)
    requires
        trace.is_endless(),
        n <= m,
        runnable(trace.at(n), thread),
        trace.moves_or_cannot(thread, m),
    ensures
        n <= k <= m,
        trace.mover(k) == thread,
        runnable(trace.at(k), thread),
        forall|j: nat| n <= j < k ==> #[trigger] trace.mover(j) != thread,
        forall|j: nat|
            n <= j <= k ==> (#[trigger] trace.at(j)).point(thread) == trace.at(n).point(thread),
    decreases m - n,
{
    if trace.mover(n) == thread {
        n
    } else {
        lemma_frame(trace, n, thread);
        lemma_turn_by(trace, thread, n + 1, m)
    }
}

/// A thread that can move gets its turn.
proof fn lemma_turn<T>(trace: Trace<T>, thread: u64, n: nat) -> (k: nat)
    requires
        trace.is_endless(),
        trace.scheduled_from(thread, n),
        runnable(trace.at(n), thread),
    ensures
        n <= k,
        trace.mover(k) == thread,
        runnable(trace.at(k), thread),
        trace.mv(k) is Act,
        forall|j: nat| n <= j < k ==> #[trigger] trace.mover(j) != thread,
        forall|j: nat|
            n <= j <= k ==> (#[trigger] trace.at(j)).point(thread) == trace.at(n).point(thread),
{
    let m = choose|m: nat| n <= m && #[trigger] trace.moves_or_cannot(thread, m);
    let k = lemma_turn_by(trace, thread, n, m);
    assert(trace.goes_on(k));
    k
}

/// The goal of a thread that tries for the queue's spinlock.
spec fn goal_of(point: Point) -> Goal {
    match point {
        Point::SpinLoad { goal, .. } => goal,
        Point::SpinExchange { goal, .. } => goal,
        Point::SpinBackoff { goal, .. } => goal,
        _ => Goal::Enqueue,
    }
}

/// The time at which a thread gets the queue's spinlock, given a time at which it no
/// longer tries.
proof fn lemma_queue_won_by<T>(trace: Trace<T>, thread: u64, n: nat, m: nat) -> (k: nat)
    requires
        trace.is_endless(),
        n <= m,
        spinning(trace.at(n).point(thread)),
        !spinning(trace.at(m).point(thread)),
    ensures
        n <= k < m,
        forall|j: nat|
            n <= j <= k ==> spinning((#[trigger] trace.at(j)).point(thread)) && goal_of(
                trace.at(j).point(thread),
            ) == goal_of(trace.at(n).point(thread)),
        trace.at(k + 1).point(thread) == queue_entered(
            goal_of(trace.at(n).point(thread)),
            trace.at(k).memory.word,
        ),
    decreases m - n,
{
    lemma_frame(trace, n, thread);
    if spinning(trace.at(n + 1).point(thread)) {
        lemma_queue_won_by(trace, thread, n + 1, m)
    } else {
        n
    }
}

/// A thread that tries for the queue's spinlock gets it.
proof fn lemma_queue_won<T>(trace: Trace<T>, thread: u64, n: nat) -> (k: nat)
    requires
        trace.is_endless(),
        trace.queue_won_from(thread, n),
        spinning(trace.at(n).point(thread)),
    ensures
        n <= k,
        forall|j: nat|
            n <= j <= k ==> spinning((#[trigger] trace.at(j)).point(thread)) && goal_of(
                trace.at(j).point(thread),
            ) == goal_of(trace.at(n).point(thread)),
        trace.at(k + 1).point(thread) == queue_entered(
            goal_of(trace.at(n).point(thread)),
            trace.at(k).memory.word,
        ),
{
    let m = choose|m: nat| n <= m && !spinning((#[trigger] trace.at(m)).point(thread));
    lemma_queue_won_by(trace, thread, n, m)
}

/// The time at which a thread that holds the lock drops its guard.
proof fn lemma_guard_dropped_by<T>(trace: Trace<T>, thread: u64, n: nat, m: nat) -> (k: nat)
    requires
        trace.is_endless(),
        n <= m,
        trace.at(n).point(thread) == Point::Held,
        trace.drops_guard(thread, m),
    ensures
        n <= k <= m,
        forall|j: nat| n <= j <= k ==> (#[trigger] trace.at(j)).point(thread) == Point::Held,
        trace.at(k + 1).point(thread) == (Point::SpinLoad { goal: Goal::Release, tries: 0 }),
    decreases m - n,
{
    lemma_frame(trace, n, thread);
    if trace.drops_guard(thread, n) {
        n
    } else {
        lemma_guard_dropped_by(trace, thread, n + 1, m)
    }
}

/// While a thread has the lock, nobody is served.
proof fn lemma_owner_blocks<T>(trace: Trace<T>, thread: u64, n: nat, m: nat)
    requires
        trace.is_endless(),
        n <= m,
        forall|j: nat| n <= j < m ==> owns((#[trigger] trace.at(j)).point(thread)),
    ensures
        trace.at(m).served == trace.at(n).served,
    decreases m - n,
{
    if n < m {
        let before = (m - 1) as nat;
        lemma_owner_blocks(trace, thread, n, before);
        lemma_inv(trace, before);
        lemma_frame(trace, before, thread);
        let system = trace.at(before);
        assert(owns(system.point(thread)));
        let (owner, holder) = choose|owner: Option<u64>, holder: Option<u64>| #[trigger]
            inv_with(system, owner, holder);
        let mover = trace.mover(before);
        assert(has_queue(system.point(mover)) ==> holder == Some(mover));
    }
}

/// A thread that has the lock lets go of it.
proof fn lemma_owner_releases<T>(trace: Trace<T>, thread: u64, n: nat) -> (m: nat)
    requires
        trace.is_endless(),
        trace.released_from(thread, n),
        forall|k: nat|
            releasing((#[trigger] trace.at(k)).point(thread)) ==> trace.scheduled_from(thread, k)
                && trace.queue_won_from(thread, k),
        owns(trace.at(n).point(thread)),
    ensures
        n < m,
        !locked(trace.at(m).memory.word),
        trace.at(m).served == trace.at(n).served,
        trace.at(n).arrivals.is_prefix_of(trace.at(m).arrivals),
        trace.at(m).point(thread) is ReleaseUnpark || trace.at(m).point(thread) is ReleaseDone,
{
    let dropped: nat = if trace.at(n).point(thread) == Point::Held {
        let late = choose|m: nat| n <= m && #[trigger] trace.drops_guard(thread, m);
        lemma_guard_dropped_by(trace, thread, n, late) + 1
    } else {
        n
    };
    let entered: nat = if spinning(trace.at(dropped).point(thread)) {
        lemma_queue_won(trace, thread, dropped) + 1
    } else {
        dropped
    };
    let looked: nat = if trace.at(entered).point(thread) == Point::ReleaseFront {
        let k = lemma_turn(trace, thread, entered);
        lemma_frame(trace, k, thread);
        k + 1
    } else {
        entered
    };
    let stored = lemma_turn(trace, thread, looked);
    lemma_frame(trace, stored, thread);
    lemma_stored_flags();
    lemma_flag_updates(released_word(true));
    lemma_flag_updates(released_word(false));
    assert forall|j: nat| n <= j < stored + 1 implies owns(
        (#[trigger] trace.at(j)).point(thread),
    ) by {}
    lemma_owner_blocks(trace, thread, n, stored + 1);
    lemma_history(trace, n, stored + 1);
    stored + 1
}

/// The lock is free for a waiter, and it is this one's turn.
spec fn has_turn<T>(system: System<T>, thread: u64) -> bool {
    &&& !locked(system.memory.word)
    &&& {
        ||| system.point(thread) is ClaimStore
        ||| {
            &&& system.memory.queue.len() > 0
            &&& system.memory.queue[0] == thread
            &&& forall|t: u64| !(#[trigger] system.point(t) is ClaimStore)
        }
    }
}

/// How far a waiter that has its turn is from the lock.
spec fn distance(point: Point) -> nat {
    match point {
        Point::ClaimStore { .. } => 1,
        Point::ClaimPop => 2,
        Point::ClaimLoad { .. } => 3,
        Point::ClaimFront { .. } => 4,
        Point::SpinLoad { .. } => 5,
        Point::SpinExchange { .. } => 5,
        Point::SpinBackoff { .. } => 5,
        Point::WaitLoad { .. } => 6,
        Point::ClaimGiveUp { .. } => 8,
        _ => 7,
    }
}

/// If the lock is free and somebody is not served yet, the first of them has its turn.
proof fn lemma_turn_comes<T>(system: System<T>)
    requires
        inv(system),
        !locked(system.memory.word),
        system.served.len() < system.arrivals.len(),
    ensures
        has_turn(system, system.arrivals[system.served.len() as int]),
{
    let (owner, holder) = choose|owner: Option<u64>, holder: Option<u64>| #[trigger]
        inv_with(system, owner, holder);
    let line = unserved(system, holder);
    assert(system.arrivals[system.served.len() as int] == line[0]);
    assert forall|t: u64| #[trigger] system.point(t) is ClaimStore implies t == line[0] by {}
}

/// A waiter keeps its turn, and comes no farther from the lock, until it takes the
/// lock. Its own steps bring it nearer, but for those at the queue's spinlock.
proof fn lemma_turn_kept<T>(system: System<T>, thread: u64, other: u64, mv: Move<T>)
    requires
        inv(system),
        has_turn(system, thread),
        system.allows(other, mv),
    ensures
        waits(system.point(thread)) || system.point(thread) is ClaimStore,
        ({
            let next = system.after(other, mv);
            if other == thread && system.point(thread) is ClaimStore {
                &&& next.point(thread) == Point::Held
                &&& next.served == system.served.push(thread)
            } else {
                &&& has_turn(next, thread)
                &&& next.served == system.served
                &&& distance(next.point(thread)) <= distance(system.point(thread))
                &&& other == thread && !spinning(system.point(thread)) ==> distance(
                    next.point(thread),
                ) < distance(system.point(thread))
            }
        }),
{
    let (owner, holder) = choose|owner: Option<u64>, holder: Option<u64>| #[trigger]
        inv_with(system, owner, holder);
    let next = system.after(other, mv);
    lemma_flag_updates(system.memory.word);
    lemma_stored_flags();
    lemma_flag_updates(released_word(true));
    lemma_flag_updates(released_word(false));
    assert(system.point(thread) == system.point(thread));
    assert(system.point(other) == system.point(other));
    assert forall|t: u64| t != other implies #[trigger] next.point(t) == system.point(t) by {}
    if holder is Some {
        assert(system.point(holder->0) == system.point(holder->0));
    }
}

/// A waiter keeps its turn over a stretch of time in which it does not take the lock.
proof fn lemma_turn_lasts<T>(trace: Trace<T>, thread: u64, n: nat, m: nat)
    requires
        trace.is_endless(),
        n <= m,
        has_turn(trace.at(n), thread),
        forall|j: nat|
            n <= j < m ==> trace.mover(j) != thread || !((#[trigger] trace.at(j)).point(
                thread,
            ) is ClaimStore),
    ensures
        has_turn(trace.at(m), thread),
        trace.at(m).served == trace.at(n).served,
        distance(trace.at(m).point(thread)) <= distance(trace.at(n).point(thread)),
    decreases m - n,
{
    if n < m {
        let before = (m - 1) as nat;
        lemma_turn_lasts(trace, thread, n, before);
        lemma_inv(trace, before);
        lemma_frame(trace, before, thread);
        assert(trace.mover(before) != thread || !(trace.at(before).point(thread) is ClaimStore));
        lemma_turn_kept(trace.at(before), thread, trace.mover(before), trace.mv(before));
    }
}

/// A waiter is about to park without a token.
spec fn asleep<T>(system: System<T>, thread: u64) -> nat {
    if system.point(thread) == Point::Park && !system.tokens.contains(thread) {
        1
    } else {
        0
    }
}

/// The park token of a waiter that has its turn and is about to park comes.
proof fn lemma_token_comes<T>(trace: Trace<T>, thread: u64, n: nat) -> (m: nat)
    requires
        trace.is_endless(),
        trace.hands_over(),
        has_turn(trace.at(n), thread),
        asleep(trace.at(n), thread) == 1,
    ensures
        n < m,
        has_turn(trace.at(m), thread),
        trace.at(m).served == trace.at(n).served,
        distance(trace.at(m).point(thread)) <= distance(trace.at(n).point(thread)),
        asleep(trace.at(m), thread) == 0,
{
    lemma_inv(trace, n);
    let system = trace.at(n);
    let (owner, holder) = choose|owner: Option<u64>, holder: Option<u64>| #[trigger]
        inv_with(system, owner, holder);
    if holder is Some {
        assert(system.point(holder->0) == system.point(holder->0));
    }
    assert(holder is Some);
    let waker = holder->0;
    assert(system.point(waker) == (Point::ReleaseUnpark { thread_id: thread }));
    let k = lemma_turn(trace, waker, n);
    lemma_frame(trace, k, waker);
    assert forall|j: nat| n <= j < k + 1 implies trace.mover(j) != thread || !((
    #[trigger] trace.at(j)).point(thread) is ClaimStore) by {
        lemma_inv(trace, j);
        assert(has_queue(trace.at(j).point(waker)));
        assert(thread != waker);
        let (o, h) = choose|o: Option<u64>, h: Option<u64>| #[trigger]
            inv_with(trace.at(j), o, h);
        assert(has_queue(trace.at(j).point(thread)) ==> h == Some(thread));
    }
    lemma_turn_lasts(trace, thread, n, k + 1);
    k + 1
}

/// A waiter that has its turn gets the lock.
proof fn lemma_turn_taken<T>(trace: Trace<T>, thread: u64, n: nat) -> (m: nat)
    requires
        trace.is_endless(),
        trace.hands_over(),
        has_turn(trace.at(n), thread),
    ensures
        n < m,
        trace.at(m).point(thread) == Point::Held,
        trace.at(m).served == trace.at(n).served.push(thread),
    decreases distance(trace.at(n).point(thread)), asleep(trace.at(n), thread),
{
    lemma_inv(trace, n);
    lemma_frame(trace, n, thread);
    lemma_turn_kept(trace.at(n), thread, trace.mover(n), trace.mv(n));
    let point = trace.at(n).point(thread);
    if spinning(point) {
        let k = lemma_queue_won(trace, thread, n);
        assert forall|j: nat| n <= j < k + 1 implies trace.mover(j) != thread || !((
        #[trigger] trace.at(j)).point(thread) is ClaimStore) by {
            assert(spinning(trace.at(j).point(thread)));
        }
        lemma_turn_lasts(trace, thread, n, k + 1);
        lemma_turn_taken(trace, thread, k + 1)
    } else if asleep(trace.at(n), thread) == 1 {
        let k = lemma_token_comes(trace, thread, n);
        lemma_turn_taken(trace, thread, k)
    } else {
        let k = lemma_turn(trace, thread, n);
        lemma_turn_lasts(trace, thread, n, k);
        lemma_inv(trace, k);
        lemma_frame(trace, k, thread);
        lemma_turn_kept(trace.at(k), thread, thread, trace.mv(k));
        if point is ClaimStore {
            k + 1
        } else {
            lemma_turn_taken(trace, thread, k + 1)
        }
    }
}

/// The first thread that is not served yet is served.
proof fn lemma_next_is_served<T>(trace: Trace<T>, n: nat) -> (m: nat)
    requires
        trace.is_endless(),
        trace.hands_over(),
        trace.at(n).served.len() < trace.at(n).arrivals.len(),
    ensures
        n < m,
        ({
            let first = trace.at(n).arrivals[trace.at(n).served.len() as int];
            &&& trace.at(m).point(first) == Point::Held
            &&& trace.at(m).served == trace.at(n).served.push(first)
        }),
        trace.at(n).arrivals.is_prefix_of(trace.at(m).arrivals),
{
    lemma_inv(trace, n);
    let system = trace.at(n);
    let (owner, holder) = choose|owner: Option<u64>, holder: Option<u64>| #[trigger]
        inv_with(system, owner, holder);
    let unlocked: nat = if owner is Some {
        assert(owns(system.point(owner->0)));
        lemma_owner_releases(trace, owner->0, n)
    } else {
        n
    };
    lemma_history(trace, n, unlocked);
    lemma_inv(trace, unlocked);
    lemma_turn_comes(trace.at(unlocked));
    let place = system.served.len() as int;
    assert(trace.at(unlocked).arrivals[place] == system.arrivals[place]);
    let m = lemma_turn_taken(trace, system.arrivals[place], unlocked);
    lemma_history(trace, n, m);
    m
}

/// A thread that joined the queue and is not served yet gets the lock.
proof fn lemma_waiter_is_served<T>(trace: Trace<T>, n: nat, place: int) -> (m: nat)
    requires
        trace.is_endless(),
        trace.hands_over(),
        trace.at(n).served.len() <= place < trace.at(n).arrivals.len(),
    ensures
        n < m,
        trace.at(m).point(trace.at(n).arrivals[place]) == Point::Held,
    decreases place - trace.at(n).served.len(),
{
    let k = lemma_next_is_served(trace, n);
    if trace.at(n).served.len() == place {
        k
    } else {
        assert(trace.at(k).arrivals[place] == trace.at(n).arrivals[place]);
        lemma_waiter_is_served(trace, k, place)
    }
}

/// A free byte with no bit outside the flags is zero.
proof fn lemma_free_is_zero(word: u8)
    by (bit_vector)
    requires
        free(word),
        word < 16,
    ensures
        word == 0,
{
}

/// A thread that tries for a free lock has it some time, or finds it taken.
proof fn lemma_exchange_ends_by<T>(trace: Trace<T>, thread: u64, n: nat, m: nat) -> (k: nat)
    requires
        trace.is_endless(),
        n <= m,
        exchanging(trace.at(n).point(thread)),
        trace.exchanges_in_earnest(thread, m),
    ensures
        n < k,
        ({
            let end = trace.at(k).point(thread);
            ||| end == Point::Held
            ||| trace.at(n).point(thread) is TryExchange && end == Point::Refused
            ||| trace.at(n).point(thread) is FastExchange && end == (Point::SpinLoad {
                goal: Goal::Enqueue,
                tries: 0,
            })
        }),
    decreases m - n,
{
    lemma_inv(trace, n);
    lemma_frame(trace, n, thread);
    let system = trace.at(n);
    assert(system.point(thread) == system.point(thread));
    if free(system.memory.word) {
        lemma_free_is_zero(system.memory.word);
    }
    match system.point(thread) {
        Point::TryExchange { seen } => lemma_free_is_zero(seen),
        Point::FastExchange { seen } => lemma_free_is_zero(seen),
        _ => {},
    }
    if exchanging(trace.at(n + 1).point(thread)) {
        lemma_exchange_ends_by(trace, thread, n + 1, m)
    } else {
        n + 1
    }
}

/// A thread that tries for a free lock does not try for ever.
proof fn lemma_exchange_ends<T>(trace: Trace<T>, thread: u64, n: nat) -> (k: nat)
    requires
        trace.is_endless(),
        trace.exchange_made_from(thread, n),
        exchanging(trace.at(n).point(thread)),
    ensures
        n < k,
        ({
            let end = trace.at(k).point(thread);
            ||| end == Point::Held
            ||| trace.at(n).point(thread) is TryExchange && end == Point::Refused
            ||| trace.at(n).point(thread) is FastExchange && end == (Point::SpinLoad {
                goal: Goal::Enqueue,
                tries: 0,
            })
        }),
{
    let m = choose|m: nat| n <= m && #[trigger] trace.exchanges_in_earnest(thread, m);
    lemma_exchange_ends_by(trace, thread, n, m)
}

/// The place in the order of arrival of a thread that is not served yet.
proof fn lemma_place<T>(system: System<T>, thread: u64) -> (place: int)
    requires
        inv(system),
        waits(system.point(thread)) || system.point(thread) is ClaimStore,
    ensures
        system.served.len() <= place < system.arrivals.len(),
        system.arrivals[place] == thread,
{
    let (owner, holder) = choose|owner: Option<u64>, holder: Option<u64>| #[trigger]
        inv_with(system, owner, holder);
    let line = unserved(system, holder);
    assert(system.point(thread) == system.point(thread));
    if system.point(thread) is ClaimStore {
        system.served.len() as int
    } else {
        let i = system.memory.queue.index_of(thread);
        system.served.len() + i + line.len() - system.memory.queue.len()
    }
}

/// No thread waits for ever: on an endless path on which the lock is handed over, a
/// call of `lock` gets the lock, whatever the other threads do, if its thread is
/// scheduled, does not fail at the queue's spinlock for ever, and its exchanges do not
/// fail for no reason for ever.
pub proof fn law_every_lock_call_gets_the_lock<T>(trace: Trace<T>, thread: u64, n: nat)
    requires
        trace.is_endless(),
        trace.hands_over(),
        trace.is_scheduled(thread),
        trace.wins_queue(thread),
        trace.makes_exchanges(thread),
        locking(trace.at(n).point(thread)),
    ensures
        exists|m: nat| n < m && (#[trigger] trace.at(m)).point(thread) == Point::Held,
{
    let loaded: nat = if trace.at(n).point(thread) == Point::FastLoad {
        let k = lemma_turn(trace, thread, n);
        lemma_frame(trace, k, thread);
        k + 1
    } else {
        n
    };
    let tried: nat = if exchanging(trace.at(loaded).point(thread)) {
        lemma_exchange_ends(trace, thread, loaded)
    } else {
        loaded
    };
    let point = trace.at(tried).point(thread);
    let entered: nat = if spinning(point) && goal_of(point) == Goal::Enqueue {
        lemma_queue_won(trace, thread, tried) + 1
    } else {
        tried
    };
    let point = trace.at(entered).point(thread);
    let settled: nat = if point == Point::TakeFree || point == Point::Enqueue {
        let k = lemma_turn(trace, thread, entered);
        lemma_frame(trace, k, thread);
        k + 1
    } else {
        entered
    };
    if trace.at(settled).point(thread) != Point::Held {
        lemma_inv(trace, settled);
        let place = lemma_place(trace.at(settled), thread);
        let m = lemma_waiter_is_served(trace, settled, place);
    }
}

/// No queued waiter starves: on an endless path on which the lock is handed over, a
/// thread that waits in the queue gets the lock, whatever newcomers do.
pub proof fn law_every_queued_waiter_gets_the_lock<T>(trace: Trace<T>, thread: u64, n: nat)
    requires
        trace.is_endless(),
        trace.hands_over(),
        waits(trace.at(n).point(thread)),
    ensures
        exists|m: nat| n < m && (#[trigger] trace.at(m)).point(thread) == Point::Held,
{
    lemma_inv(trace, n);
    let place = lemma_place(trace.at(n), thread);
    let m = lemma_waiter_is_served(trace, n, place);
}

/// Every release comes to its end, if its thread is scheduled and does not fail at the
/// queue's spinlock for ever.
pub proof fn law_every_release_ends<T>(trace: Trace<T>, thread: u64, n: nat)
    requires
        trace.is_endless(),
        trace.is_scheduled(thread),
        trace.wins_queue(thread),
        releasing(trace.at(n).point(thread)),
    ensures
        exists|m: nat| n < m && (#[trigger] trace.at(m)).point(thread) == Point::Released,
{
    let stored: nat = if owns(trace.at(n).point(thread)) {
        lemma_owner_releases(trace, thread, n)
    } else {
        n
    };
    let unparked: nat = if trace.at(stored).point(thread) is ReleaseUnpark {
        let k = lemma_turn(trace, thread, stored);
        lemma_frame(trace, k, thread);
        k + 1
    } else {
        stored
    };
    let k = lemma_turn(trace, thread, unparked);
    lemma_frame(trace, k, thread);
    assert(trace.at(k + 1).point(thread) == Point::Released);
}

/// Every call of `try_lock` comes to its end, with the lock or without, if its thread is
/// scheduled and its exchanges do not fail for no reason for ever. Nothing is asked of
/// other threads: the lock may be held for ever.
pub proof fn law_every_try_lock_ends<T>(trace: Trace<T>, thread: u64, n: nat)
    requires
        trace.is_endless(),
        trace.is_scheduled(thread),
        trace.makes_exchanges(thread),
        trace.at(n).point(thread) == Point::TryLoad || trace.at(n).point(thread) is TryExchange,
    ensures
        exists|m: nat|
            n < m && ((#[trigger] trace.at(m)).point(thread) == Point::Held || trace.at(m).point(
                thread,
            ) == Point::Refused),
{
    let loaded: nat = if trace.at(n).point(thread) == Point::TryLoad {
        let k = lemma_turn(trace, thread, n);
        lemma_frame(trace, k, thread);
        k + 1
    } else {
        n
    };
    if exchanging(trace.at(loaded).point(thread)) {
        let m = lemma_exchange_ends(trace, thread, loaded);
    } else {
        assert(trace.at(loaded).point(thread) == Point::Refused);
    }
}

} // verus!
