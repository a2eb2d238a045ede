//! What holds of every interleaving of the threads that use a mutex.
use vstd::prelude::*;

use crate::flags::{free, has_waiters, lemma_stored_flags, locked, queue_locked, woken};
use crate::flags::{PARK_SPIN_BEFORE, QUEUE_SPIN_LIMIT, QUEUE_YIELD_LIMIT};
use crate::mutex::{answer, effect, locked_memory, may_claim, released_memory, Memory};
use crate::protocol::{action_at, next_point, within_limits, Action, Event, Goal, Point};
use crate::system::{follows, has_queue, inv_with, is_path, lemma_follows, lemma_reachable};
use crate::system::{locking, moves_to, owns, reachable, waits, Move, System};

verus! {

/// Mutual exclusion: at most one thread has the lock.
pub proof fn law_mutual_exclusion<T>(system: System<T>, a: u64, b: u64)
    requires
        reachable(system),
        owns(system.point(a)),
        owns(system.point(b)),
    ensures
        a == b,
{
    lemma_reachable(system);
}

/// The operation reads or changes the queue of waiters.
pub open spec fn touches_queue(action: Action) -> bool {
    action == Action::PushBack || action == Action::PeekFront || action == Action::PopFront
}

/// Access to the queue is guarded by `QUEUE_LOCKED`: a thread that is about to touch
/// the queue has the flag to itself, and no move of another thread changes the queue
/// or the state byte meanwhile.
pub proof fn law_queue_is_guarded<T>(system: System<T>, a: u64, b: u64)
    requires
        reachable(system),
        touches_queue(action_at(system.point(a))),
    ensures
        queue_locked(system.memory.word),
        has_queue(system.point(a)),
        has_queue(system.point(b)) ==> a == b,
        forall|mv: Move<T>|
            #![trigger system.after(b, mv)]
            system.allows(b, mv) && a != b ==> system.after(b, mv).memory.queue
                == system.memory.queue && system.after(b, mv).memory.word == system.memory.word,
{
    lemma_reachable(system);
    assert(system.point(b) == system.point(b));
}

/// The queue changes only under `QUEUE_LOCKED`, by an operation of the thread that
/// has set it.
pub proof fn law_queue_changes_under_its_flag<T>(system: System<T>, thread: u64, mv: Move<T>)
    requires
        reachable(system),
        system.allows(thread, mv),
        system.after(thread, mv).memory.queue != system.memory.queue,
    ensures
        mv is Act,
        touches_queue(action_at(system.point(thread))),
        has_queue(system.point(thread)),
        queue_locked(system.memory.word),
{
    lemma_reachable(system);
    assert(system.point(thread) == system.point(thread));
}

/// First in, first out: the threads that joined the queue take the lock in the order
/// in which they joined it. Those not served yet are the thread that has just left
/// the queue to take the lock, if there is one, and those in the queue.
pub proof fn law_fifo<T>(system: System<T>)
    requires
        reachable(system),
    ensures
        system.served.is_prefix_of(system.arrivals),
        forall|t: u64| #[trigger]
            system.point(t) is ClaimStore ==> system.arrivals == system.served + seq![t]
                + system.memory.queue,
        (forall|t: u64| !(#[trigger] system.point(t) is ClaimStore)) ==> system.arrivals
            == system.served + system.memory.queue,
{
    lemma_reachable(system);
    let (owner, holder) = choose|owner: Option<u64>, holder: Option<u64>| #[trigger]
        inv_with(system, owner, holder);
    assert(system.arrivals.take(system.served.len() as int) =~= system.served);
    if holder is Some {
        assert(system.point(holder->0) == system.point(holder->0));
        assert(system.served + (seq![holder->0] + system.memory.queue) =~= system.served + seq![
            holder->0,
        ] + system.memory.queue);
    }
}

/// No barging: a thread that gets the lock is the first of those that joined the
/// queue and were not served yet, unless nobody waits.
pub proof fn law_no_barging<T>(system: System<T>, thread: u64, mv: Move<T>)
    requires
        reachable(system),
        system.allows(thread, mv),
        !owns(system.point(thread)),
        owns(system.after(thread, mv).point(thread)),
    ensures
        system.point(thread) is ClaimStore ==> {
            &&& system.served.len() < system.arrivals.len()
            &&& system.arrivals[system.served.len() as int] == thread
            &&& system.after(thread, mv).served == system.served.push(thread)
        },
        !(system.point(thread) is ClaimStore) ==> {
            &&& system.memory.queue.len() == 0
            &&& system.served == system.arrivals
            &&& forall|t: u64| !waits(#[trigger] system.point(t))
        },
{
    lemma_reachable(system);
    law_fifo(system);
    let (owner, holder) = choose|owner: Option<u64>, holder: Option<u64>| #[trigger]
        inv_with(system, owner, holder);
    assert(system.point(thread) == system.point(thread));
    if system.point(thread) is ClaimStore {
        assert(system.arrivals == system.served + seq![thread] + system.memory.queue);
    }
}

/// Only the thread that holds the lock changes the protected value, and no other
/// thread has the lock meanwhile.
pub proof fn law_value_is_guarded<T>(system: System<T>, thread: u64, mv: Move<T>, other: u64)
    requires
        reachable(system),
        system.allows(thread, mv),
        system.after(thread, mv).memory.value != system.memory.value,
    ensures
        system.point(thread) == Point::Held,
        owns(system.point(other)) ==> other == thread,
{
    lemma_reachable(system);
}

/// A guard reads what the last guard left: while no thread is inside its critical
/// section, the protected value stays as it is.
pub proof fn law_value_is_kept<T>(path: Seq<System<T>>, i: int, j: int)
    requires
        is_path(path),
        0 <= i <= j < path.len(),
        forall|k: int, t: u64| i <= k < j ==> #[trigger] path[k].point(t) != Point::Held,
    ensures
        path[j].memory.value == path[i].memory.value,
    decreases j - i,
{
    if i < j {
        law_value_is_kept(path, i, j - 1);
        let before = path[j - 1];
        assert(moves_to(path[j - 1], path[j - 1 + 1]));
        let (thread, mv) = choose|thread: u64, mv: Move<T>| #[trigger]
            before.allows(thread, mv) && path[j] == before.after(thread, mv);
        assert(path[j - 1].point(thread) != Point::Held);
    }
}

/// What a thread reads while it has the lock is still there when it writes: along a
/// path on which the thread keeps the lock and does not write itself, the protected
/// value stays as it is, whatever the others do.
pub proof fn law_holder_is_not_overtaken<T>(
    path: Seq<System<T>>,
    moves: Seq<(u64, Move<T>)>,
    thread: u64,
    i: int,
    j: int,
)
    requires
        reachable(path[0]),
        follows(path, moves),
        0 <= i <= j < path.len(),
        forall|k: int| i <= k < j ==> owns(#[trigger] path[k].point(thread)),
        forall|k: int|
            #![trigger moves[k]]
            i <= k < j ==> !(moves[k].0 == thread && moves[k].1 is Write),
    ensures
        path[j].memory.value == path[i].memory.value,
    decreases j - i,
{
    if i < j {
        law_holder_is_not_overtaken(path, moves, thread, i, j - 1);
        lemma_follows(path, moves, j - 1);
        let (other, mv) = moves[j - 1];
        assert(owns(path[j - 1].point(thread)));
        if mv is Write {
            assert(owns(path[j - 1].point(other)));
        }
    }
}

/// The number of writes among the moves.
pub open spec fn writes<T>(moves: Seq<(u64, Move<T>)>) -> nat
    decreases moves.len(),
{
    if moves.len() == 0 {
        0
    } else {
        writes(moves.drop_last()) + if moves.last().1 is Write {
            1nat
        } else {
            0nat
        }
    }
}

/// The move number `k` adds one: it writes one more than the value that the same thread
/// read when `read` moves had been made, and the thread has kept the lock and not
/// written since.
pub open spec fn adds_one(
    path: Seq<System<int>>,
    moves: Seq<(u64, Move<int>)>,
    k: int,
    read: int,
) -> bool {
    let thread = moves[k].0;
    &&& 0 <= read <= k
    &&& moves[k].1 == Move::Write(path[read].memory.value + 1)
    &&& forall|i: int| read <= i <= k ==> owns(#[trigger] path[i].point(thread))
    &&& forall|i: int|
        #![trigger moves[i]]
        read <= i < k ==> !(moves[i].0 == thread && moves[i].1 is Write)
}

/// No increment is lost: if every write adds one to what its thread read inside the
/// same critical section, the value has grown by the number of writes.
pub proof fn law_no_increment_is_lost(
    path: Seq<System<int>>,
    moves: Seq<(u64, Move<int>)>,
    reads: Seq<int>,
)
    requires
        reachable(path[0]),
        follows(path, moves),
        reads.len() == moves.len(),
        forall|k: int|
            #![trigger moves[k]]
            0 <= k < moves.len() && moves[k].1 is Write ==> adds_one(path, moves, k, reads[k]),
    ensures
        path.last().memory.value == path[0].memory.value + writes(moves),
    decreases moves.len(),
{
    if moves.len() > 0 {
        let last = moves.len() - 1;
        let shorter = moves.drop_last();
        let start = path.drop_last();
        assert forall|i: int| #![trigger shorter[i]] 0 <= i < shorter.len() implies start[i].allows(
            shorter[i].0,
            shorter[i].1,
        ) && start[i + 1] == start[i].after(shorter[i].0, shorter[i].1) && shorter[i]
            == moves[i] by {
            assert(moves[i] == shorter[i]);
        }
        assert forall|k: int|
            #![trigger shorter[k]]
            0 <= k < shorter.len() && shorter[k].1 is Write implies adds_one(
            start,
            shorter,
            k,
            reads.drop_last()[k],
        ) by {
            assert(moves[k] == shorter[k]);
            let thread = moves[k].0;
            assert(adds_one(path, moves, k, reads[k]));
            assert forall|i: int| reads[k] <= i <= k implies owns(
                #[trigger] start[i].point(thread),
            ) by {
                assert(owns(path[i].point(thread)));
            }
            assert forall|i: int|
                #![trigger shorter[i]]
                reads[k] <= i < k implies !(shorter[i].0 == thread && shorter[i].1 is Write) by {
                assert(moves[i] == shorter[i]);
            }
        }
        law_no_increment_is_lost(start, shorter, reads.drop_last());
        assert(moves[last] == moves.last());
        if moves[last].1 is Write {
            assert(adds_one(path, moves, last, reads[last]));
            law_holder_is_not_overtaken(path, moves, moves[last].0, reads[last], last);
        }
    }
}

/// What the flags mean. `LOCKED`: a thread has the lock. `QUEUE_LOCKED`: a thread is
/// working on the queue. While no thread is, `HAS_WAITERS` says that a thread waits
/// in the queue, and `WOKEN` that the front waiter was signalled: threads wait and
/// nobody has the lock. At all times `WOKEN` excludes `LOCKED` and comes with
/// `HAS_WAITERS`. No other bit is ever set.
pub proof fn law_flags<T>(system: System<T>)
    requires
        reachable(system),
    ensures
        system.memory.word < 16,
        locked(system.memory.word) <==> exists|t: u64| owns(#[trigger] system.point(t)),
        queue_locked(system.memory.word) <==> exists|t: u64| has_queue(#[trigger] system.point(t)),
        forall|t: u64| waits(#[trigger] system.point(t)) <==> system.memory.queue.contains(t),
        !(locked(system.memory.word) && woken(system.memory.word)),
        woken(system.memory.word) ==> has_waiters(system.memory.word),
        !queue_locked(system.memory.word) ==> {
            &&& has_waiters(system.memory.word) <==> system.memory.queue.len() > 0
            &&& woken(system.memory.word) <==> system.memory.queue.len() > 0 && !locked(
                system.memory.word,
            )
        },
{
    lemma_reachable(system);
    let (owner, holder) = choose|owner: Option<u64>, holder: Option<u64>| #[trigger]
        inv_with(system, owner, holder);
    if owner is Some {
        assert(owns(system.point(owner->0)));
    }
    if holder is Some {
        assert(has_queue(system.point(holder->0)));
    }
}

/// No lost wake-up: while `WOKEN` is set and the front waiter is about to park, its
/// park token is available, or the releasing thread is about to make it so, or the
/// signal was for a waiter that has already left the queue to take the lock.
pub proof fn law_no_lost_wakeup<T>(system: System<T>)
    requires
        reachable(system),
        woken(system.memory.word),
        system.memory.queue.len() > 0,
        system.point(system.memory.queue[0]) == Point::Park,
    ensures
        ({
            ||| system.tokens.contains(system.memory.queue[0])
            ||| exists|t: u64| #[trigger]
                system.point(t) == (Point::ReleaseUnpark { thread_id: system.memory.queue[0] })
            ||| exists|t: u64| #[trigger] system.point(t) is ClaimStore
        }),
{
    lemma_reachable(system);
    let (owner, holder) = choose|owner: Option<u64>, holder: Option<u64>| #[trigger]
        inv_with(system, owner, holder);
    if holder is Some {
        assert(system.point(holder->0) == system.point(holder->0));
    }
}

/// A release signals the right thread: while a thread is about to unpark another,
/// that other is at the front of the queue, and nobody has the lock.
pub proof fn law_release_unparks_the_front<T>(system: System<T>, thread: u64, unparked: u64)
    requires
        reachable(system),
        system.point(thread) == (Point::ReleaseUnpark { thread_id: unparked }),
    ensures
        system.memory.queue.len() > 0,
        system.memory.queue[0] == unparked,
        woken(system.memory.word),
        forall|t: u64| !owns(#[trigger] system.point(t)),
{
    lemma_reachable(system);
    assert(has_queue(system.point(thread)));
}

/// What a call does to a mutex is a move of the system: its first point is where the
/// move that begins it leads, and a step changes memory and point as the move does.
pub proof fn law_calls_make_moves<T>(system: System<T>, thread: u64)
    ensures
        system.after(thread, Move::TryLock).point(thread) == Point::TryLoad,
        system.after(thread, Move::Lock).point(thread) == Point::FastLoad,
        system.after(thread, Move::Release).point(thread) == (Point::SpinLoad {
            goal: Goal::Release,
            tries: 0,
        }),
        ({
            let action = action_at(system.point(thread));
            let next = system.after(thread, Move::Act { spurious: false });
            &&& next.memory == effect(system.memory, thread, action, false)
            &&& next.point(thread) == next_point(
                thread,
                system.point(thread),
                answer(system.memory, action, false),
            )
        }),
{
}

/// A call of `try_lock`, under way or over.
pub open spec fn trying(point: Point) -> bool {
    match point {
        Point::TryLoad => true,
        Point::TryExchange { .. } => true,
        Point::Held => true,
        Point::Refused => true,
        _ => false,
    }
}

/// `try_lock` does not block: whatever it sees, it never joins the queue, lets time
/// pass or parks. It only reads the state byte and tries to exchange it.
pub proof fn law_try_lock_does_not_block(me: u64, point: Point, event: Event)
    requires
        trying(point),
    ensures
        trying(next_point(me, point, event)),
        ({
            ||| action_at(point) == Action::Load
            ||| action_at(point) is CompareExchange
            ||| action_at(point) == Action::Finish
        }),
{
}

/// `try_lock` fails while another thread has the lock or waits for it: the next thing
/// that it does is to give up, and it changes nothing.
pub proof fn law_try_lock_fails_when_contended<T>(
    system: System<T>,
    thread: u64,
    spurious: bool,
    other: u64,
)
    requires
        reachable(system),
        system.point(thread) == Point::TryLoad || system.point(thread) is TryExchange,
        owns(system.point(other)) || waits(system.point(other)),
    ensures
        system.after(thread, Move::Act { spurious }).point(thread) == Point::Refused,
        system.after(thread, Move::Act { spurious }).memory == system.memory,
{
    lemma_reachable(system);
}

/// A call of `lock` ends only with the lock held: whatever it sees, it goes on or
/// holds the lock.
pub proof fn law_lock_ends_with_the_lock(me: u64, point: Point, event: Event)
    requires
        locking(point),
    ensures
        action_at(point) != Action::Finish,
        locking(next_point(me, point, event)) || next_point(me, point, event) == Point::Held,
{
}

/// A waiter never falls back: whatever any thread does, a waiter keeps its place in
/// the queue or moves up by one, and it leaves the queue only from the front, by its
/// own move.
pub proof fn law_waiter_never_falls_back<T>(
    system: System<T>,
    thread: u64,
    mv: Move<T>,
    place: int,
)
    requires
        reachable(system),
        system.allows(thread, mv),
        0 <= place < system.memory.queue.len(),
    ensures
        ({
            let waiter = system.memory.queue[place];
            let queue = system.after(thread, mv).memory.queue;
            ||| place < queue.len() && queue[place] == waiter
            ||| 0 < place <= queue.len() && queue[place - 1] == waiter
            ||| place == 0 && thread == waiter && !queue.contains(waiter)
        }),
{
    lemma_reachable(system);
    let (owner, holder) = choose|owner: Option<u64>, holder: Option<u64>| #[trigger]
        inv_with(system, owner, holder);
    assert(system.point(thread) == system.point(thread));
}

/// The queue's spinlock: a failure is met by spinning while fewer than
/// `QUEUE_SPIN_LIMIT` are counted, and by yielding from then on. The next failure
/// counts one more, but at `QUEUE_YIELD_LIMIT` the count falls back to where the
/// thread still yields, so it stays bounded and the thread never spins again.
pub proof fn law_spinlock_backoff(me: u64, goal: Goal, tries: u32, busy: u8)
    requires
        within_limits(Point::SpinBackoff { goal, tries }),
        queue_locked(busy),
    ensures
        action_at(Point::SpinBackoff { goal, tries }) == if tries < QUEUE_SPIN_LIMIT {
            Action::SpinLoop
        } else {
            Action::YieldNow
        },
        ({
            let retry = next_point(me, Point::SpinBackoff { goal, tries }, Event::Done);
            let failure = next_point(me, retry, Event::Loaded(busy));
            &&& retry is SpinLoad
            &&& within_limits(failure)
            &&& failure matches Point::SpinBackoff { goal: same, tries: more } && same == goal
                && more == if tries < QUEUE_YIELD_LIMIT {
                tries + 1
            } else {
                QUEUE_SPIN_LIMIT + 1
            }
        }),
{
}

/// Where a call of the thread `me` is after `n` steps in which no other thread
/// touches the mutex, and what it leaves.
pub open spec fn undisturbed<T>(memory: Memory<T>, me: u64, point: Point, n: nat) -> (
    Memory<T>,
    Point,
)
    decreases n,
{
    if n == 0 {
        (memory, point)
    } else {
        let action = action_at(point);
        undisturbed(
            effect(memory, me, action, false),
            me,
            next_point(me, point, answer(memory, action, false)),
            (n - 1) as nat,
        )
    }
}

/// Hybrid waiting: a waiter that is not signalled spins until it has spun
/// `PARK_SPIN_BEFORE` times, looking at the state before each spin, looks twice more,
/// and parks. It leaves the mutex as it is.
pub proof fn law_waiter_spins_then_parks<T>(memory: Memory<T>, me: u64, spins: u32)
    requires
        !woken(memory.word),
        spins <= PARK_SPIN_BEFORE,
    ensures
        undisturbed(
            memory,
            me,
            Point::WaitLoad { spins },
            (2 * (PARK_SPIN_BEFORE - spins) + 2) as nat,
        ) == (memory, Point::Park),
    decreases PARK_SPIN_BEFORE - spins,
{
    reveal_with_fuel(undisturbed, 3);
    if spins < PARK_SPIN_BEFORE {
        law_waiter_spins_then_parks(memory, me, (spins + 1) as u32);
    }
}

/// Where a thread is after as many steps as there are bytes, if each read of the state
/// shows the byte of that step and the other operations have no result.
pub open spec fn shown(me: u64, point: Point, bytes: Seq<u8>) -> Point
    decreases bytes.len(),
{
    if bytes.len() == 0 {
        point
    } else {
        let event = if action_at(point) == Action::Load {
            Event::Loaded(bytes[0])
        } else {
            Event::Done
        };
        shown(me, next_point(me, point, event), bytes.drop_first())
    }
}

/// Hybrid waiting among other threads: whatever a waiter reads, as long as no byte shows
/// `WOKEN`, it spins until it has spun `PARK_SPIN_BEFORE` times, looking at the state
/// before each spin, looks twice more, and parks.
pub proof fn law_unsignalled_waiter_parks(me: u64, spins: u32, bytes: Seq<u8>)
    requires
        spins <= PARK_SPIN_BEFORE,
        forall|i: int| 0 <= i < bytes.len() ==> !woken(#[trigger] bytes[i]),
    ensures
        bytes.len() < 2 * (PARK_SPIN_BEFORE - spins) ==> shown(
            me,
            Point::WaitLoad { spins },
            bytes,
        ) == if bytes.len() % 2 == 0 {
            Point::WaitLoad { spins: (spins + bytes.len() / 2) as u32 }
        } else {
            Point::WaitSpin { spins: (spins + bytes.len() / 2) as u32 }
        },
        bytes.len() == 2 * (PARK_SPIN_BEFORE - spins) ==> shown(
            me,
            Point::WaitLoad { spins },
            bytes,
        ) == (Point::WaitLoad { spins: PARK_SPIN_BEFORE }),
        bytes.len() == 2 * (PARK_SPIN_BEFORE - spins) + 1 ==> shown(
            me,
            Point::WaitLoad { spins },
            bytes,
        ) == Point::ParkLoad,
        bytes.len() == 2 * (PARK_SPIN_BEFORE - spins) + 2 ==> shown(
            me,
            Point::WaitLoad { spins },
            bytes,
        ) == Point::Park,
    decreases bytes.len(),
{
    reveal_with_fuel(shown, 3);
    if bytes.len() >= 2 && spins < PARK_SPIN_BEFORE {
        let rest = bytes.drop_first().drop_first();
        assert forall|i: int| 0 <= i < rest.len() implies !woken(#[trigger] rest[i]) by {
            assert(rest[i] == bytes[i + 2]);
        }
        law_unsignalled_waiter_parks(me, (spins + 1) as u32, rest);
    } else if bytes.len() == 2 {
        assert(!woken(bytes.drop_first()[0]));
    }
}

/// Releasing a lock that nobody waits for undoes taking it.
pub proof fn law_release_undoes_lock<T>(memory: Memory<T>)
    requires
        memory.word == 0,
        memory.queue.len() == 0,
    ensures
        free(memory.word),
        released_memory(locked_memory(memory)) == memory,
{
    lemma_stored_flags();
}

/// A released lock is handed to the front waiter: it alone may claim, and a newcomer
/// finds the lock taken.
pub proof fn law_release_lets_in_the_front<T>(memory: Memory<T>, thread: u64)
    requires
        memory.queue.len() > 0,
    ensures
        may_claim(released_memory(memory), thread) <==> thread == memory.queue[0],
        !free(released_memory(memory).word),
{
    lemma_stored_flags();
}

} // verus!
