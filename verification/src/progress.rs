//! There is no deadlock: from every reachable system each thread in a call of `lock`
//! can still get the lock.
use vstd::prelude::*;

use crate::flags::{lemma_flag_updates, lemma_stored_flags, released_word, woken};
use crate::protocol::{Goal, Point};
use crate::system::{has_queue, inv_with, is_path, lemma_act, lemma_reachable, locking};
use crate::system::{moves_to, next_holder, next_owner, reachable, unserved, Move, System};

verus! {

/// What a thread does to get on with its call: a thread that holds the lock releases
/// it, any other takes the next step.
spec fn onward<T>(system: System<T>, thread: u64) -> Move<T> {
    if system.point(thread) == Point::Held {
        Move::Release
    } else {
        Move::Act { spurious: false }
    }
}

/// How many steps a thread that has the queue takes at most until it lets go of it.
spec fn queue_steps(point: Point) -> nat {
    match point {
        Point::ClaimFront { .. } => 5,
        Point::ClaimLoad { .. } => 4,
        Point::ClaimPop => 3,
        Point::ClaimStore { .. } => 2,
        Point::ClaimGiveUp { .. } => 1,
        Point::ReleaseFront => 4,
        Point::ReleaseStore { .. } => 3,
        Point::ReleaseUnpark { .. } => 2,
        Point::ReleaseDone => 1,
        Point::Enqueue => 2,
        Point::EnqueueDone => 1,
        Point::TakeFree => 1,
        _ => 0,
    }
}

/// How many steps a thread that no other disturbs takes at most: a signalled front
/// waiter to get the lock, a thread with the lock to publish its release, a thread
/// new to `lock` to get the lock or to join the queue.
spec fn steps_left(word: u8, point: Point) -> nat {
    match point {
        Point::ClaimStore { .. } => 1,
        Point::ClaimPop => 2,
        Point::ClaimLoad { .. } => 3,
        Point::ClaimFront { .. } => 4,
        Point::ReleaseStore { .. } => 1,
        Point::ReleaseFront => 2,
        Point::TakeFree => 1,
        Point::Enqueue => 1,
        Point::SpinExchange { seen, .. } => if seen == word {
            5
        } else {
            8
        },
        Point::SpinLoad { .. } => 6,
        Point::SpinBackoff { .. } => 7,
        Point::WaitLoad { .. } => 9,
        Point::WaitSpin { .. } => 10,
        Point::ParkLoad => 10,
        Point::Park => 10,
        Point::EnqueueDone => 10,
        Point::ClaimGiveUp { .. } => 11,
        Point::Held => 9,
        Point::FastExchange { seen } => if seen == word {
            1
        } else {
            9
        },
        Point::FastLoad => 9,
        _ => 0,
    }
}

/// The thread on which the next hand-over depends: the one that has the lock, or the
/// waiter whose turn it is.
spec fn key_thread<T>(system: System<T>, owner: Option<u64>, holder: Option<u64>) -> u64 {
    match owner {
        Some(thread) => thread,
        None => unserved(system, holder)[0],
    }
}

/// The thread whose move helps: the one that has the queue, or the key thread.
spec fn helper(holder: Option<u64>, key: u64) -> u64 {
    match holder {
        Some(thread) => thread,
        None => key,
    }
}

/// How many steps a thread other than `key` takes at most until it lets go of the
/// queue.
spec fn delay<T>(system: System<T>, holder: Option<u64>, key: u64) -> nat {
    match holder {
        Some(thread) if thread != key => queue_steps(system.point(thread)),
        _ => 0,
    }
}

/// Whether a release is still to come before the next waiter can take the lock.
spec fn phase(owner: Option<u64>) -> nat {
    if owner is Some {
        1
    } else {
        0
    }
}

/// A helpful move brings the waiter at `place` nearer to the lock.
proof fn lemma_help<T>(
    system: System<T>,
    owner: Option<u64>,
    holder: Option<u64>,
    place: int,
) -> (r: (Option<u64>, Option<u64>, int))
    requires
        inv_with(system, owner, holder),
        0 <= place < unserved(system, holder).len(),
    ensures
        ({
            let key = key_thread(system, owner, holder);
            let thread = helper(holder, key);
            let waiter = unserved(system, holder)[place];
            let next = system.after(thread, onward(system, thread));
            let next_key = key_thread(next, r.0, r.1);
            &&& system.allows(thread, onward(system, thread))
            &&& inv_with(next, r.0, r.1)
            &&& next.point(waiter) == Point::Held || {
                &&& 0 <= r.2 < unserved(next, r.1).len()
                &&& unserved(next, r.1)[r.2] == waiter
                &&& decreases_to!(
                    place, phase(owner), delay(system, holder, key), steps_left(
                        system.memory.word,
                        system.point(key),
                    )
                    => r.2, phase(r.0), delay(next, r.1, next_key), steps_left(
                        next.memory.word,
                        next.point(next_key),
                    )
                )
            }
        }),
{
    let key = key_thread(system, owner, holder);
    let thread = helper(holder, key);
    let mv = onward(system, thread);
    let next = system.after(thread, mv);
    lemma_flag_updates(system.memory.word);
    lemma_stored_flags();
    lemma_flag_updates(released_word(true));
    lemma_flag_updates(released_word(false));
    assert(system.point(thread) == system.point(thread));
    assert(system.point(key) == system.point(key));
    let o = next_owner(owner, thread, next.point(thread));
    let h = next_holder(holder, thread, next.point(thread));
    if system.point(thread) == Point::Held {
        assert forall|t: u64| t != thread implies #[trigger] next.point(t) == system.point(t) by {}
        assert(inv_with(next, owner, holder));
        (owner, holder, place)
    } else {
        lemma_act(system, thread, false, owner, holder);
        let p = place - (next.served.len() - system.served.len());
        (o, h, p)
    }
}

/// A path with a move put in front of it is a path.
proof fn lemma_path_cons<T>(system: System<T>, thread: u64, mv: Move<T>, path: Seq<System<T>>)
    requires
        system.allows(thread, mv),
        is_path(path),
        path[0] == system.after(thread, mv),
    ensures
        is_path(seq![system] + path),
        (seq![system] + path)[0] == system,
        (seq![system] + path).last() == path.last(),
{
    let whole = seq![system] + path;
    assert forall|i: int| 0 <= i < whole.len() - 1 implies #[trigger] moves_to(
        whole[i],
        whole[i + 1],
    ) by {
        if i == 0 {
            assert(system.allows(thread, mv));
        } else {
            assert(moves_to(path[i - 1], path[i - 1 + 1]));
        }
    }
}

/// A path on which the waiter at `place` gets the lock.
proof fn lemma_waiter_path<T>(
    system: System<T>,
    owner: Option<u64>,
    holder: Option<u64>,
    place: int,
) -> (path: Seq<System<T>>)
    requires
        inv_with(system, owner, holder),
        0 <= place < unserved(system, holder).len(),
    ensures
        is_path(path),
        path[0] == system,
        path.last().point(unserved(system, holder)[place]) == Point::Held,
    decreases
            place,
            phase(owner),
            delay(system, holder, key_thread(system, owner, holder)),
            steps_left(
                system.memory.word,
                system.point(key_thread(system, owner, holder)),
            ),
{
    let thread = helper(holder, key_thread(system, owner, holder));
    let mv = onward(system, thread);
    let next = system.after(thread, mv);
    let (next_owner, next_holder, next_place) = lemma_help(system, owner, holder, place);
    let rest = if next.point(unserved(system, holder)[place]) == Point::Held {
        seq![next]
    } else {
        lemma_waiter_path(next, next_owner, next_holder, next_place)
    };
    lemma_path_cons(system, thread, mv, rest);
    seq![system] + rest
}

/// A thread in a call of `lock` that has not joined the queue yet.
spec fn arriving(point: Point) -> bool {
    match point {
        Point::FastLoad => true,
        Point::FastExchange { .. } => true,
        Point::SpinLoad { goal, .. } => goal == Goal::Enqueue,
        Point::SpinExchange { goal, .. } => goal == Goal::Enqueue,
        Point::SpinBackoff { goal, .. } => goal == Goal::Enqueue,
        Point::TakeFree => true,
        Point::Enqueue => true,
        _ => false,
    }
}

/// A helpful move brings an arriving thread nearer to the lock or to the queue.
proof fn lemma_help_arrival<T>(
    system: System<T>,
    owner: Option<u64>,
    holder: Option<u64>,
    arrival: u64,
) -> (r: (Option<u64>, Option<u64>))
    requires
        inv_with(system, owner, holder),
        arriving(system.point(arrival)),
    ensures
        ({
            let thread = helper(holder, arrival);
            let next = system.after(thread, onward(system, thread));
            &&& system.allows(thread, onward(system, thread))
            &&& inv_with(next, r.0, r.1)
            &&& {
                ||| next.point(arrival) == Point::Held
                ||| next.point(arrival) == Point::EnqueueDone
                ||| {
                    &&& arriving(next.point(arrival))
                    &&& decreases_to!(
                        delay(system, holder, arrival), steps_left(
                            system.memory.word,
                            system.point(arrival),
                        )
                        => delay(next, r.1, arrival), steps_left(
                            next.memory.word,
                            next.point(arrival),
                        )
                    )
                }
            }
        }),
{
    let thread = helper(holder, arrival);
    let next = system.after(thread, onward(system, thread));
    lemma_flag_updates(system.memory.word);
    lemma_stored_flags();
    assert(system.point(thread) == system.point(thread));
    lemma_act(system, thread, false, owner, holder);
    (
        next_owner(owner, thread, next.point(thread)),
        next_holder(holder, thread, next.point(thread)),
    )
}

/// A path on which an arriving thread gets the lock.
proof fn lemma_arrival_path<T>(
    system: System<T>,
    owner: Option<u64>,
    holder: Option<u64>,
    arrival: u64,
) -> (path: Seq<System<T>>)
    requires
        inv_with(system, owner, holder),
        arriving(system.point(arrival)),
    ensures
        is_path(path),
        path[0] == system,
        path.last().point(arrival) == Point::Held,
    decreases
            delay(system, holder, arrival),
            steps_left(
                system.memory.word,
                system.point(arrival),
            ),
{
    let thread = helper(holder, arrival);
    let mv = onward(system, thread);
    let next = system.after(thread, mv);
    let (next_owner, next_holder) = lemma_help_arrival(system, owner, holder, arrival);
    let rest = if next.point(arrival) == Point::Held {
        seq![next]
    } else if next.point(arrival) == Point::EnqueueDone {
        let place = next.memory.queue.index_of(arrival);
        lemma_waiter_path(next, next_owner, next_holder, place)
    } else {
        lemma_arrival_path(next, next_owner, next_holder, arrival)
    };
    lemma_path_cons(system, thread, mv, rest);
    seq![system] + rest
}

/// No deadlock: from every reachable system, for each thread in a call of `lock`, the
/// threads can go on so that this thread gets the lock.
pub proof fn law_every_lock_call_can_succeed<T>(system: System<T>, thread: u64)
    requires
        reachable(system),
        locking(system.point(thread)),
    ensures
        exists|path: Seq<System<T>>| #[trigger]
            is_path(path) && path[0] == system && path.last().point(thread) == Point::Held,
{
    lemma_reachable(system);
    let (owner, holder) = choose|owner: Option<u64>, holder: Option<u64>| #[trigger]
        inv_with(system, owner, holder);
    if arriving(system.point(thread)) {
        let path = lemma_arrival_path(system, owner, holder, thread);
    } else {
        let line = unserved(system, holder);
        assert(system.point(thread) == system.point(thread));
        let place = if system.point(thread) is ClaimStore {
            0
        } else {
            let i = system.memory.queue.index_of(thread);
            i + line.len() - system.memory.queue.len()
        };
        let path = lemma_waiter_path(system, owner, holder, place);
    }
}

/// A waiter that may take the lock and that nobody keeps from the queue: it was
/// signalled and is at the front, or has just left the queue.
pub open spec fn is_next<T>(system: System<T>, thread: u64) -> bool {
    &&& woken(system.memory.word)
    &&& {
        ||| system.memory.queue.len() > 0 && system.memory.queue[0] == thread
        ||| system.point(thread) is ClaimStore
    }
    &&& forall|t: u64| t != thread ==> !has_queue(#[trigger] system.point(t))
}

/// The system after `n` steps of one thread, while no other moves.
pub open spec fn alone<T>(system: System<T>, thread: u64, n: nat) -> System<T>
    decreases n,
{
    if n == 0 {
        system
    } else {
        alone(system.after(thread, Move::Act { spurious: false }), thread, (n - 1) as nat)
    }
}

/// A step of a waiter that is next brings it nearer to the lock.
proof fn lemma_next_step<T>(
    system: System<T>,
    thread: u64,
    owner: Option<u64>,
    holder: Option<u64>,
)
    requires
        inv_with(system, owner, holder),
        is_next(system, thread),
    ensures
        system.allows(thread, Move::Act { spurious: false }),
        1 <= steps_left(system.memory.word, system.point(thread)) <= 11,
        ({
            let next = system.after(thread, Move::Act { spurious: false });
            ||| next.point(thread) == Point::Held
            ||| {
                &&& is_next(next, thread)
                &&& steps_left(next.memory.word, next.point(thread)) < steps_left(
                    system.memory.word,
                    system.point(thread),
                )
            }
        }),
{
    let next = system.after(thread, Move::Act { spurious: false });
    lemma_flag_updates(system.memory.word);
    assert(system.point(thread) == system.point(thread));
    if holder is Some {
        assert(has_queue(system.point(holder->0)));
    }
    assert forall|t: u64| t != thread implies #[trigger] next.point(t) == system.point(t) by {}
}

/// The number of steps after which a waiter that is next holds the lock.
proof fn lemma_next_steps<T>(
    system: System<T>,
    thread: u64,
    owner: Option<u64>,
    holder: Option<u64>,
) -> (n: nat)
    requires
        inv_with(system, owner, holder),
        is_next(system, thread),
    ensures
        1 <= n <= steps_left(system.memory.word, system.point(thread)) <= 11,
        alone(system, thread, n).point(thread) == Point::Held,
        forall|k: nat|
            k < n ==> (#[trigger] alone(system, thread, k)).allows(
                thread,
                Move::Act { spurious: false },
            ),
    decreases steps_left(system.memory.word, system.point(thread)),
{
    let next = system.after(thread, Move::Act { spurious: false });
    lemma_next_step(system, thread, owner, holder);
    let rest = if next.point(thread) == Point::Held {
        0
    } else {
        lemma_act(system, thread, false, owner, holder);
        lemma_next_steps(
            next,
            thread,
            next_owner(owner, thread, next.point(thread)),
            next_holder(holder, thread, next.point(thread)),
        )
    };
    assert(alone(next, thread, 0) == next);
    assert forall|k: nat| k < rest + 1 implies (#[trigger] alone(system, thread, k)).allows(
        thread,
        Move::Act { spurious: false },
    ) by {
        if k > 0 {
            assert(alone(system, thread, k) == alone(next, thread, (k - 1) as nat));
        }
    }
    rest + 1
}

/// A signalled front waiter lets itself in: if no other thread moves, it can take
/// step after step, and holds the lock after at most eleven. It is never parked for
/// good.
pub proof fn law_signalled_waiter_gets_in<T>(system: System<T>, thread: u64)
    requires
        reachable(system),
        is_next(system, thread),
    ensures
        exists|n: nat|
            {
                &&& 1 <= n <= 11
                &&& (#[trigger] alone(system, thread, n)).point(thread) == Point::Held
                &&& forall|k: nat|
                    k < n ==> (#[trigger] alone(system, thread, k)).allows(
                        thread,
                        Move::Act { spurious: false },
                    )
            },
{
    lemma_reachable(system);
    let (owner, holder) = choose|owner: Option<u64>, holder: Option<u64>| #[trigger]
        inv_with(system, owner, holder);
    let n = lemma_next_steps(system, thread, owner, holder);
}

} // verus!
