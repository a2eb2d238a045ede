//! Any number of threads on one mutex, interleaved at the grain of single
//! operations, and the invariant of that system.
use vstd::prelude::*;

use crate::flags::{free, has_waiters, lemma_flag_updates, lemma_stored_flags, locked};
use crate::flags::{queue_locked, released_word, woken};
use crate::mutex::{answer, effect, front, settled, Memory};
use crate::protocol::{action_at, next_point, within_limits, Action, Goal, Point};

verus! {

/// The mutex and all threads that use it.
///
/// A number names a caller. A thread that calls `lock` or `try_lock` while it has the
/// lock acts, for that call, as a caller of its own, with a number of its own: it is
/// refused or waits like any other, and the guard that it has stays with the number
/// that acquired it.
pub struct System<T> {
    /// What the threads share.
    pub memory: Memory<T>,
    /// Where each thread is that has made a call.
    pub points: Map<u64, Point>,
    /// The threads whose park token is available.
    pub tokens: Set<u64>,
    /// The threads that joined the queue, in that order, from the beginning.
    pub arrivals: Seq<u64>,
    /// The threads that took the lock out of the queue, in that order, from the
    /// beginning.
    pub served: Seq<u64>,
}

/// What a thread can do next.
pub enum Move<T> {
    /// Begin a call of `try_lock`.
    TryLock,
    /// Begin a call of `lock`.
    Lock,
    /// Replace the protected value, through the guard.
    Write(T),
    /// Begin to release the lock: drop the guard.
    Release,
    /// Take a step of the call. `spurious` is true if an exchange fails, or a park
    /// returns, for no reason.
    Act { spurious: bool },
}

impl<T> System<T> {
    /// Where a thread is; one that never made a call is as if it had released.
    pub open spec fn point(self, thread: u64) -> Point {
        if self.points.contains_key(thread) {
            self.points[thread]
        } else {
            Point::Released
        }
    }

    /// The system with a thread moved to another point.
    pub open spec fn at(self, thread: u64, point: Point) -> System<T> {
        System { points: self.points.insert(thread, point), ..self }
    }

    /// Whether a thread can make a move.
    pub open spec fn allows(self, thread: u64, mv: Move<T>) -> bool {
        let point = self.point(thread);
        match mv {
            Move::TryLock => point == Point::Refused || point == Point::Released,
            Move::Lock => point == Point::Refused || point == Point::Released,
            Move::Write(_) => point == Point::Held,
            Move::Release => point == Point::Held,
            Move::Act { spurious } => {
                &&& action_at(point) != Action::Finish
                &&& point == Point::Park ==> self.tokens.contains(thread) || spurious
            },
        }
    }

    /// The system after a step of a call.
    pub open spec fn after_act(self, thread: u64, spurious: bool) -> System<T> {
        let point = self.point(thread);
        let action = action_at(point);
        System {
            memory: effect(self.memory, thread, action, spurious),
            points: self.points.insert(
                thread,
                next_point(thread, point, answer(self.memory, action, spurious)),
            ),
            tokens: match action {
                Action::Unpark { thread_id } => self.tokens.insert(thread_id),
                Action::Park => self.tokens.remove(thread),
                _ => self.tokens,
            },
            arrivals: if point == Point::Enqueue {
                self.arrivals.push(thread)
            } else {
                self.arrivals
            },
            served: if point is ClaimStore {
                self.served.push(thread)
            } else {
                self.served
            },
        }
    }

    /// The system after a move.
    pub open spec fn after(self, thread: u64, mv: Move<T>) -> System<T> {
        match mv {
            Move::TryLock => self.at(thread, Point::TryLoad),
            Move::Lock => self.at(thread, Point::FastLoad),
            Move::Write(value) => System { memory: Memory { value, ..self.memory }, ..self },
            Move::Release => self.at(thread, Point::SpinLoad { goal: Goal::Release, tries: 0 }),
            Move::Act { spurious } => self.after_act(thread, spurious),
        }
    }

    /// A new mutex that no thread has used.
    pub open spec fn is_new(self) -> bool {
        &&& self.memory.word == 0
        &&& self.memory.queue == Seq::<u64>::empty()
        &&& self.points == Map::<u64, Point>::empty()
        &&& self.arrivals == Seq::<u64>::empty()
        &&& self.served == Seq::<u64>::empty()
    }
}

/// One system comes from another by an allowed move of a thread.
pub open spec fn moves_to<T>(before: System<T>, after: System<T>) -> bool {
    exists|thread: u64, mv: Move<T>| #[trigger]
        before.allows(thread, mv) && after == before.after(thread, mv)
}

/// A path: each system comes from the one before by an allowed move.
pub open spec fn is_path<T>(path: Seq<System<T>>) -> bool {
    &&& path.len() > 0
    &&& forall|i: int| 0 <= i < path.len() - 1 ==> #[trigger] moves_to(path[i], path[i + 1])
}

/// A run: a path that starts with a new mutex.
pub open spec fn is_run<T>(run: Seq<System<T>>) -> bool {
    is_path(run) && run[0].is_new()
}

/// A path made by given moves, each of a given thread.
pub open spec fn follows<T>(path: Seq<System<T>>, moves: Seq<(u64, Move<T>)>) -> bool {
    &&& path.len() == moves.len() + 1
    &&& forall|i: int|
        #![trigger moves[i]]
        0 <= i < moves.len() ==> path[i].allows(moves[i].0, moves[i].1) && path[i + 1]
            == path[i].after(moves[i].0, moves[i].1)
}

/// A system that some run ends with.
pub open spec fn reachable<T>(system: System<T>) -> bool {
    exists|run: Seq<System<T>>| #[trigger] is_run(run) && run.last() == system
}

/// A thread at this point has the lock.
pub open spec fn owns(point: Point) -> bool {
    match point {
        Point::Held => true,
        Point::SpinLoad { goal, .. } => goal == Goal::Release,
        Point::SpinExchange { goal, .. } => goal == Goal::Release,
        Point::SpinBackoff { goal, .. } => goal == Goal::Release,
        Point::ReleaseFront => true,
        Point::ReleaseStore { .. } => true,
        _ => false,
    }
}

/// A thread at this point has the queue's spinlock.
pub open spec fn has_queue(point: Point) -> bool {
    match point {
        Point::TakeFree => true,
        Point::Enqueue => true,
        Point::EnqueueDone => true,
        Point::ClaimFront { .. } => true,
        Point::ClaimLoad { .. } => true,
        Point::ClaimPop => true,
        Point::ClaimStore { .. } => true,
        Point::ClaimGiveUp { .. } => true,
        Point::ReleaseFront => true,
        Point::ReleaseStore { .. } => true,
        Point::ReleaseUnpark { .. } => true,
        Point::ReleaseDone => true,
        _ => false,
    }
}

/// A thread at this point waits in the queue.
pub open spec fn waits(point: Point) -> bool {
    match point {
        Point::EnqueueDone => true,
        Point::WaitLoad { .. } => true,
        Point::WaitSpin { .. } => true,
        Point::ParkLoad => true,
        Point::Park => true,
        Point::SpinLoad { goal, .. } => goal is Claim,
        Point::SpinExchange { goal, .. } => goal is Claim,
        Point::SpinBackoff { goal, .. } => goal is Claim,
        Point::ClaimFront { .. } => true,
        Point::ClaimLoad { .. } => true,
        Point::ClaimPop => true,
        Point::ClaimGiveUp { .. } => true,
        _ => false,
    }
}

/// A thread in a call of `lock`, from its beginning until it has the lock.
pub open spec fn locking(point: Point) -> bool {
    match point {
        Point::FastLoad => true,
        Point::FastExchange { .. } => true,
        Point::SpinLoad { goal, .. } => goal != Goal::Release,
        Point::SpinExchange { goal, .. } => goal != Goal::Release,
        Point::SpinBackoff { goal, .. } => goal != Goal::Release,
        Point::TakeFree => true,
        Point::Enqueue => true,
        Point::ClaimStore { .. } => true,
        _ => waits(point),
    }
}

/// What the thread that has the queue's spinlock knows of the memory.
pub open spec fn queue_section<T>(memory: Memory<T>, thread: u64, point: Point) -> bool {
    match point {
        Point::TakeFree => {
            &&& !locked(memory.word)
            &&& !woken(memory.word)
            &&& memory.queue.len() == 0
        },
        Point::Enqueue => {
            &&& has_waiters(memory.word)
            &&& woken(memory.word) <==> !locked(memory.word)
            &&& !locked(memory.word) ==> memory.queue.len() > 0
        },
        Point::ClaimStore { more } => {
            &&& !locked(memory.word)
            &&& has_waiters(memory.word)
            &&& woken(memory.word)
            &&& more <==> memory.queue.len() > 0
        },
        Point::ClaimLoad { .. } => settled(memory) && front(memory.queue) == Some(thread),
        Point::ClaimPop => {
            &&& settled(memory)
            &&& woken(memory.word)
            &&& front(memory.queue) == Some(thread)
        },
        Point::ReleaseStore { next } => settled(memory) && next == front(memory.queue),
        Point::ReleaseUnpark { thread_id } => {
            &&& settled(memory)
            &&& woken(memory.word)
            &&& front(memory.queue) == Some(thread_id)
        },
        _ => settled(memory),
    }
}

/// What a thread remembers of the state byte is what its next exchange relies on.
pub open spec fn remembers(point: Point) -> bool {
    match point {
        Point::TryExchange { seen } => free(seen) && seen < 16,
        Point::FastExchange { seen } => free(seen) && seen < 16,
        Point::SpinExchange { seen, .. } => !queue_locked(seen),
        _ => true,
    }
}

/// The threads that joined the queue and are not served yet: the one that has just
/// left the queue to take the lock, and those in the queue.
pub open spec fn unserved<T>(system: System<T>, holder: Option<u64>) -> Seq<u64> {
    match holder {
        Some(thread) if system.point(thread) is ClaimStore => seq![thread] + system.memory.queue,
        _ => system.memory.queue,
    }
}

/// If the front waiter is signalled and about to park, its park token is available.
/// The signal is still on its way while the releasing thread is about to unpark the
/// waiter, and is used up when the waiter has left the queue.
pub open spec fn front_wakes<T>(system: System<T>, holder: Option<u64>) -> bool {
    let memory = system.memory;
    let underway = match holder {
        Some(thread) => system.point(thread) is ReleaseUnpark || system.point(
            thread,
        ) is ClaimStore,
        None => false,
    };
    woken(memory.word) && memory.queue.len() > 0 && !underway && system.point(memory.queue[0])
        == Point::Park ==> system.tokens.contains(memory.queue[0])
}

/// The invariant, for the thread `owner` that has the lock and the thread `holder`
/// that has the queue's spinlock.
pub open spec fn inv_with<T>(system: System<T>, owner: Option<u64>, holder: Option<u64>) -> bool {
    let memory = system.memory;
    &&& memory.word < 16
    &&& locked(memory.word) <==> owner is Some
    &&& queue_locked(memory.word) <==> holder is Some
    &&& forall|t: u64|
        {
            let point = #[trigger] system.point(t);
            &&& owns(point) <==> owner == Some(t)
            &&& has_queue(point) <==> holder == Some(t)
            &&& waits(point) <==> memory.queue.contains(t)
            &&& remembers(point)
            &&& within_limits(point)
        }
    &&& memory.queue.no_duplicates()
    &&& match holder {
        Some(t) => queue_section(memory, t, system.point(t)),
        None => settled(memory),
    }
    &&& front_wakes(system, holder)
    &&& system.arrivals == system.served + unserved(system, holder)
}

/// The invariant of every reachable system.
pub open spec fn inv<T>(system: System<T>) -> bool {
    exists|owner: Option<u64>, holder: Option<u64>| #[trigger] inv_with(system, owner, holder)
}

/// A new mutex meets the invariant.
proof fn lemma_new<T>(system: System<T>)
    requires
        system.is_new(),
    ensures
        inv_with(system, None, None),
{
    lemma_stored_flags();
}

/// The thread that has the lock after a step of `thread`.
pub open spec fn next_owner(owner: Option<u64>, thread: u64, point: Point) -> Option<u64> {
    if owns(point) {
        Some(thread)
    } else if owner == Some(thread) {
        None
    } else {
        owner
    }
}

/// The thread that has the queue after a step of `thread`.
pub open spec fn next_holder(holder: Option<u64>, thread: u64, point: Point) -> Option<u64> {
    if has_queue(point) {
        Some(thread)
    } else if holder == Some(thread) {
        None
    } else {
        holder
    }
}

/// A step of a call keeps the invariant.
pub proof fn lemma_act<T>(
    system: System<T>,
    thread: u64,
    spurious: bool,
    owner: Option<u64>,
    holder: Option<u64>,
)
    requires
        inv_with(system, owner, holder),
        system.allows(thread, Move::Act { spurious }),
    ensures
        inv_with(
            system.after_act(thread, spurious),
            next_owner(owner, thread, system.after_act(thread, spurious).point(thread)),
            next_holder(holder, thread, system.after_act(thread, spurious).point(thread)),
        ),
{
    let next = system.after_act(thread, spurious);
    lemma_flag_updates(system.memory.word);
    lemma_stored_flags();
    lemma_flag_updates(released_word(true));
    lemma_flag_updates(released_word(false));
    assert forall|t: u64| t != thread implies #[trigger] next.point(t) == system.point(t) by {}
    let point = system.point(thread);
    let queue = system.memory.queue;
    if point == Point::Enqueue {
        assert forall|t: u64| #[trigger]
            queue.push(thread).contains(t) <==> queue.contains(t) || t == thread by {
            if queue.contains(t) {
                let i = choose|i: int| 0 <= i < queue.len() && queue[i] == t;
                assert(queue.push(thread)[i] == t);
            }
            assert(queue.push(thread)[queue.len() as int] == thread);
        }
        assert(next.arrivals =~= system.served + queue.push(thread));
    }
    if point == Point::ClaimPop {
        assert forall|t: u64| #[trigger]
            queue.drop_first().contains(t) <==> queue.contains(t) && t != thread by {
            if queue.contains(t) && t != thread {
                let i = choose|i: int| 0 <= i < queue.len() && queue[i] == t;
                assert(queue.drop_first()[i - 1] == t);
            }
            if queue.drop_first().contains(t) {
                let i = choose|i: int|
                    0 <= i < queue.drop_first().len() && queue.drop_first()[i] == t;
                assert(queue[i + 1] == t);
            }
        }
        assert(seq![thread] + queue.drop_first() =~= queue);
    }
    if point is ClaimStore {
        assert(system.served + (seq![thread] + queue) =~= system.served.push(thread) + queue);
    }
}

/// Every move keeps the invariant.
pub proof fn lemma_move<T>(system: System<T>, thread: u64, mv: Move<T>)
    requires
        inv(system),
        system.allows(thread, mv),
    ensures
        inv(system.after(thread, mv)),
{
    let (owner, holder) = choose|owner: Option<u64>, holder: Option<u64>| #[trigger]
        inv_with(system, owner, holder);
    let next = system.after(thread, mv);
    match mv {
        Move::Act { spurious } => {
            lemma_act(system, thread, spurious, owner, holder);
        },
        _ => {
            assert forall|t: u64| t != thread implies #[trigger] next.point(t) == system.point(
                t,
            ) by {}
            assert(inv_with(next, owner, holder));
        },
    }
}

/// The invariant holds all along a run.
proof fn lemma_run<T>(run: Seq<System<T>>, i: int)
    requires
        is_run(run),
        0 <= i < run.len(),
    ensures
        inv(run[i]),
    decreases i,
{
    if i == 0 {
        lemma_new(run[0]);
    } else {
        lemma_run(run, i - 1);
        let before = run[i - 1];
        assert(moves_to(run[i - 1], run[i - 1 + 1]));
        let (thread, mv) = choose|thread: u64, mv: Move<T>| #[trigger]
            before.allows(thread, mv) && run[i] == before.after(thread, mv);
        lemma_move(before, thread, mv);
    }
}

/// The invariant holds of every reachable system.
pub proof fn lemma_reachable<T>(system: System<T>)
    requires
        reachable(system),
    ensures
        inv(system),
{
    let run = choose|run: Seq<System<T>>| #[trigger] is_run(run) && run.last() == system;
    lemma_run(run, run.len() - 1);
}

/// The invariant holds all along a path from a reachable system.
pub proof fn lemma_follows<T>(path: Seq<System<T>>, moves: Seq<(u64, Move<T>)>, i: int)
    requires
        reachable(path[0]),
        follows(path, moves),
        0 <= i < path.len(),
    ensures
        inv(path[i]),
    decreases i,
{
    if i == 0 {
        lemma_reachable(path[0]);
    } else {
        lemma_follows(path, moves, i - 1);
        let (thread, mv) = moves[i - 1];
        lemma_move(path[i - 1], thread, mv);
    }
}

} // verus!
