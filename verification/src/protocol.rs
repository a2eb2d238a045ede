//! The protocol of the mutex as a table: where a thread can be in one of its
//! calls, which operation it performs there, and where the answer takes it.
use vstd::prelude::*;

use crate::flags::{claimed_word, free, queue_locked, released_word, unclaimed, woken};
use crate::flags::{HAS_WAITERS, LOCKED, PARK_SPIN_BEFORE, QUEUE_LOCKED};
use crate::flags::{QUEUE_SPIN_LIMIT, QUEUE_YIELD_LIMIT};

verus! {

/// What a thread wants the queue's spinlock for.
#[derive(Clone, Copy, Debug, PartialEq, Eq)]
pub enum Goal {
    /// To add itself to the queue.
    Enqueue,
    /// To take the mutex as the waiter at the front; `spins` is how often it has
    /// spun since it was queued.
    Claim { spins: u32 },
    /// To release the mutex.
    Release,
}

/// Where a thread is in a call.
#[derive(Clone, Copy, Debug, PartialEq, Eq)]
pub enum Point {
    /// `try_lock`: about to read the state.
    TryLoad,
    /// `try_lock`: about to take the mutex, which was seen free.
    TryExchange { seen: u8 },
    /// `lock`, fast path: about to read the state.
    FastLoad,
    /// `lock`, fast path: about to take the mutex, which was seen free.
    FastExchange { seen: u8 },
    /// Queue spinlock: about to read the state, after `tries` failures.
    SpinLoad { goal: Goal, tries: u32 },
    /// Queue spinlock: about to take it; it was seen free.
    SpinExchange { goal: Goal, tries: u32, seen: u8 },
    /// Queue spinlock: about to let time pass after failure number `tries`.
    SpinBackoff { goal: Goal, tries: u32 },
    /// `lock`: has the queue, found the mutex unclaimed, about to take it.
    TakeFree,
    /// `lock`: has the queue, about to join it.
    Enqueue,
    /// `lock`: joined the queue, about to let go of it.
    EnqueueDone,
    /// Waiting: about to look whether somebody was signalled.
    WaitLoad { spins: u32 },
    /// Waiting: about to spin once.
    WaitSpin { spins: u32 },
    /// Waiting: about to look once more before parking.
    ParkLoad,
    /// Waiting: about to park.
    Park,
    /// Claiming: has the queue, about to look who is at the front.
    ClaimFront { spins: u32 },
    /// Claiming: is at the front, about to check that it was signalled.
    ClaimLoad { spins: u32 },
    /// Claiming: was signalled, about to leave the queue.
    ClaimPop,
    /// Claiming: left the queue, about to take the mutex.
    ClaimStore { more: bool },
    /// Claiming: it is not its turn, about to let go of the queue.
    ClaimGiveUp { spins: u32 },
    /// Releasing: has the queue, about to look who is at the front.
    ReleaseFront,
    /// Releasing: about to publish that the mutex is no longer held.
    ReleaseStore { next: Option<u64> },
    /// Releasing: about to unpark the front waiter.
    ReleaseUnpark { thread_id: u64 },
    /// Releasing: about to let go of the queue.
    ReleaseDone,
    /// The call is over and the thread holds the mutex.
    Held,
    /// The call is over; the mutex was not to be had.
    Refused,
    /// The call is over and the mutex is released.
    Released,
}

/// An operation that a call asks for.
#[derive(Clone, Copy, Debug, PartialEq, Eq)]
pub enum Action {
    /// Read the state byte, with acquire ordering.
    Load,
    /// Replace the state byte by `new` if it is `current`; may fail although it is.
    /// Acquire and release ordering, acquire on failure.
    CompareExchange { current: u8, new: u8 },
    /// Write the state byte, with release ordering.
    Store { new: u8 },
    /// Clear the bits of the state byte that are not in `mask`, with release ordering.
    FetchAnd { mask: u8 },
    /// Add the calling thread at the back of the queue.
    PushBack,
    /// Look who is at the front of the queue.
    PeekFront,
    /// Remove the front of the queue.
    PopFront,
    /// Make the park token of a thread available.
    Unpark { thread_id: u64 },
    /// Block until the park token of the calling thread is available; may return
    /// without.
    Park,
    /// Tell the processor that the thread is spinning.
    SpinLoop,
    /// Let other threads run.
    YieldNow,
    /// Nothing: the call is over.
    Finish,
}

/// The answer to an action.
#[derive(Clone, Copy, Debug, PartialEq, Eq)]
pub enum Event {
    /// The byte that was read.
    Loaded(u8),
    /// The byte that was replaced, or the byte that stood in the way.
    Exchanged(Result<u8, u8>),
    /// The thread at the front of the queue, if there is one.
    Front(Option<u64>),
    /// The front left the queue; `more` says whether another waiter is left.
    Popped { more: bool },
    /// The operation has no result.
    Done,
}

/// The flags that a thread sets together with `QUEUE_LOCKED`.
pub open spec fn extra_bits(goal: Goal) -> u8 {
    match goal {
        Goal::Enqueue => HAS_WAITERS,
        Goal::Claim { .. } => 0,
        Goal::Release => 0,
    }
}

/// The operation that a thread performs at a point.
pub open spec fn action_at(point: Point) -> Action {
    match point {
        Point::TryLoad => Action::Load,
        Point::TryExchange { seen } => Action::CompareExchange { current: seen, new: seen | LOCKED },
        Point::FastLoad => Action::Load,
        Point::FastExchange { seen } => Action::CompareExchange {
            current: seen,
            new: seen | LOCKED,
        },
        Point::SpinLoad { .. } => Action::Load,
        Point::SpinExchange { goal, tries: _, seen } => Action::CompareExchange {
            current: seen,
            new: seen | QUEUE_LOCKED | extra_bits(goal),
        },
        Point::SpinBackoff { goal: _, tries } => if tries < QUEUE_SPIN_LIMIT {
            Action::SpinLoop
        } else {
            Action::YieldNow
        },
        Point::TakeFree => Action::Store { new: LOCKED },
        Point::Enqueue => Action::PushBack,
        Point::EnqueueDone => Action::FetchAnd { mask: !QUEUE_LOCKED },
        Point::WaitLoad { .. } => Action::Load,
        Point::WaitSpin { .. } => Action::SpinLoop,
        Point::ParkLoad => Action::Load,
        Point::Park => Action::Park,
        Point::ClaimFront { .. } => Action::PeekFront,
        Point::ClaimLoad { .. } => Action::Load,
        Point::ClaimPop => Action::PopFront,
        Point::ClaimStore { more } => Action::Store { new: claimed_word(more) },
        Point::ClaimGiveUp { .. } => Action::FetchAnd { mask: !QUEUE_LOCKED },
        Point::ReleaseFront => Action::PeekFront,
        Point::ReleaseStore { next } => Action::Store {
            new: released_word(next is Some) | QUEUE_LOCKED,
        },
        Point::ReleaseUnpark { thread_id } => Action::Unpark { thread_id },
        Point::ReleaseDone => Action::FetchAnd { mask: !QUEUE_LOCKED },
        Point::Held => Action::Finish,
        Point::Refused => Action::Finish,
        Point::Released => Action::Finish,
    }
}

/// Where `try_lock` goes on a state byte: it tries for the mutex only when no
/// flag is set, and gives up otherwise.
pub open spec fn try_on(word: u8) -> Point {
    if free(word) {
        Point::TryExchange { seen: word }
    } else {
        Point::Refused
    }
}

/// Where the fast path of `lock` goes on a state byte: it tries for the mutex only
/// when no flag is set, and queues otherwise.
pub open spec fn fast_on(word: u8) -> Point {
    if free(word) {
        Point::FastExchange { seen: word }
    } else {
        Point::SpinLoad { goal: Goal::Enqueue, tries: 0 }
    }
}

/// Where a thread goes that took the queue's spinlock over the byte `seen`.
pub open spec fn queue_entered(goal: Goal, seen: u8) -> Point {
    match goal {
        Goal::Enqueue => if unclaimed(seen) {
            Point::TakeFree
        } else {
            Point::Enqueue
        },
        Goal::Claim { spins } => Point::ClaimFront { spins },
        Goal::Release => Point::ReleaseFront,
    }
}

/// Where a waiter goes that cannot have the mutex now: it spins for a while, then
/// parks.
pub open spec fn pause(spins: u32) -> Point {
    if spins < PARK_SPIN_BEFORE {
        Point::WaitSpin { spins }
    } else {
        Point::ParkLoad
    }
}

/// Where the answer to the operation at `point` takes the thread `me`. An answer to
/// another operation leaves it where it is.
pub open spec fn next_point(me: u64, point: Point, event: Event) -> Point {
    match (point, event) {
        (Point::TryLoad, Event::Loaded(word)) => try_on(word),
        (Point::TryExchange { .. }, Event::Exchanged(Ok(_))) => Point::Held,
        (Point::TryExchange { .. }, Event::Exchanged(Err(actual))) => try_on(actual),
        (Point::FastLoad, Event::Loaded(word)) => fast_on(word),
        (Point::FastExchange { .. }, Event::Exchanged(Ok(_))) => Point::Held,
        (Point::FastExchange { .. }, Event::Exchanged(Err(actual))) => fast_on(actual),
        (Point::SpinLoad { goal, tries }, Event::Loaded(word)) => if queue_locked(word) {
            Point::SpinBackoff { goal, tries: (tries + 1) as u32 }
        } else {
            Point::SpinExchange { goal, tries, seen: word }
        },
        (Point::SpinExchange { goal, tries: _, seen }, Event::Exchanged(Ok(_))) => queue_entered(
            goal,
            seen,
        ),
        (
            Point::SpinExchange { goal, tries, seen: _ },
            Event::Exchanged(Err(_)),
        ) => Point::SpinBackoff { goal, tries: (tries + 1) as u32 },
        (Point::SpinBackoff { goal, tries }, Event::Done) => Point::SpinLoad {
            goal,
            tries: if tries < QUEUE_YIELD_LIMIT {
                tries
            } else {
                QUEUE_SPIN_LIMIT
            },
        },
        (Point::TakeFree, Event::Done) => Point::Held,
        (Point::Enqueue, Event::Done) => Point::EnqueueDone,
        (Point::EnqueueDone, Event::Done) => Point::WaitLoad { spins: 0 },
        (Point::WaitLoad { spins }, Event::Loaded(word)) => if woken(word) {
            Point::SpinLoad { goal: Goal::Claim { spins }, tries: 0 }
        } else {
            pause(spins)
        },
        (Point::WaitSpin { spins }, Event::Done) => Point::WaitLoad { spins: (spins + 1) as u32 },
        (Point::ParkLoad, Event::Loaded(word)) => if woken(word) {
            Point::WaitLoad { spins: PARK_SPIN_BEFORE }
        } else {
            Point::Park
        },
        (Point::Park, Event::Done) => Point::WaitLoad { spins: PARK_SPIN_BEFORE },
        (Point::ClaimFront { spins }, Event::Front(front)) => if front == Some(me) {
            Point::ClaimLoad { spins }
        } else {
            Point::ClaimGiveUp { spins }
        },
        (Point::ClaimLoad { spins }, Event::Loaded(word)) => if woken(word) {
            Point::ClaimPop
        } else {
            Point::ClaimGiveUp { spins }
        },
        (Point::ClaimPop, Event::Popped { more }) => Point::ClaimStore { more },
        (Point::ClaimStore { .. }, Event::Done) => Point::Held,
        (Point::ClaimGiveUp { spins }, Event::Done) => pause(spins),
        (Point::ReleaseFront, Event::Front(front)) => Point::ReleaseStore { next: front },
        (Point::ReleaseStore { next: Some(thread_id) }, Event::Done) => Point::ReleaseUnpark { thread_id },
        (Point::ReleaseStore { next: None }, Event::Done) => Point::ReleaseDone,
        (Point::ReleaseUnpark { .. }, Event::Done) => Point::ReleaseDone,
        (Point::ReleaseDone, Event::Done) => Point::Released,
        _ => point,
    }
}

/// The counts of a goal are within their limits.
pub open spec fn goal_within_limits(goal: Goal) -> bool {
    match goal {
        Goal::Claim { spins } => spins <= PARK_SPIN_BEFORE,
        _ => true,
    }
}

/// The counts at a point are within their limits: a waiter spins at most
/// `PARK_SPIN_BEFORE` times before it parks, and the failures at the queue's
/// spinlock are counted up to `QUEUE_YIELD_LIMIT`.
pub open spec fn within_limits(point: Point) -> bool {
    match point {
        Point::SpinLoad { goal, tries } => goal_within_limits(goal) && tries < QUEUE_YIELD_LIMIT,
        Point::SpinExchange { goal, tries, seen: _ } => goal_within_limits(goal) && tries
            < QUEUE_YIELD_LIMIT,
        Point::SpinBackoff { goal, tries } => goal_within_limits(goal) && 0 < tries
            <= QUEUE_YIELD_LIMIT,
        Point::WaitLoad { spins } => spins <= PARK_SPIN_BEFORE,
        Point::WaitSpin { spins } => spins < PARK_SPIN_BEFORE,
        Point::ClaimFront { spins } => spins <= PARK_SPIN_BEFORE,
        Point::ClaimLoad { spins } => spins <= PARK_SPIN_BEFORE,
        Point::ClaimGiveUp { spins } => spins <= PARK_SPIN_BEFORE,
        _ => true,
    }
}

} // verus!
