//! A call of one thread: the state machine that takes or releases the mutex.
use vstd::prelude::*;

use crate::flags::{claimed, is_free, is_queue_locked, is_unclaimed, is_woken, released};
use crate::flags::{HAS_WAITERS, LOCKED, PARK_SPIN_BEFORE, QUEUE_LOCKED};
use crate::flags::{QUEUE_SPIN_LIMIT, QUEUE_YIELD_LIMIT};
use crate::protocol::{action_at, next_point, within_limits, Action, Event, Goal, Point};
use crate::protocol::{extra_bits, fast_on, pause, queue_entered, try_on};

verus! {

/// A call in progress: the calling thread and where it is.
///
/// The thread asks the call for its next [`action`](Call::action), performs it on
/// the mutex, and hands the answer to [`resume`](Call::resume), until the call is
/// [`finished`](Call::is_finished).
pub struct Call {
    me: u64,
    point: Point,
}

impl Call {
    /// The counts of a call stay within their limits.
    #[verifier::type_invariant]
    spec fn inv(self) -> bool {
        within_limits(self.point)
    }

    /// The thread that makes the call.
    pub closed spec fn spec_thread_id(&self) -> u64 {
        self.me
    }

    /// Where the call is.
    pub closed spec fn spec_point(&self) -> Point {
        self.point
    }

    /// A call of `try_lock`.
    pub fn try_lock(me: u64) -> (r: Call)
        ensures
            r.thread_id() == me,
            r.point() == Point::TryLoad,
    {
        Call { me, point: Point::TryLoad }
    }

    /// A call of `lock`.
    pub fn lock(me: u64) -> (r: Call)
        ensures
            r.thread_id() == me,
            r.point() == Point::FastLoad,
    {
        Call { me, point: Point::FastLoad }
    }

    /// A queued thread's attempt to take the mutex.
    pub fn claim(me: u64) -> (r: Call)
        ensures
            r.thread_id() == me,
            r.point() == (Point::SpinLoad { goal: Goal::Claim { spins: 0 }, tries: 0 }),
    {
        Call { me, point: Point::SpinLoad { goal: Goal::Claim { spins: 0 }, tries: 0 } }
    }

    /// A call that releases the mutex.
    pub fn release(me: u64) -> (r: Call)
        ensures
            r.thread_id() == me,
            r.point() == (Point::SpinLoad { goal: Goal::Release, tries: 0 }),
    {
        Call { me, point: Point::SpinLoad { goal: Goal::Release, tries: 0 } }
    }

    /// The thread that makes the call.
    #[verifier::when_used_as_spec(spec_thread_id)]
    pub fn thread_id(&self) -> (r: u64)
        ensures
            r == self.thread_id(),
    {
        self.me
    }

    /// Where the call is. Its counts are within their limits.
    #[verifier::when_used_as_spec(spec_point)]
    pub fn point(&self) -> (r: Point)
        ensures
            r == self.point(),
            within_limits(r),
    {
        proof {
            use_type_invariant(self);
        }
        self.point
    }

    /// Whether nothing is left to do: the mutex is held, refused or released.
    pub fn is_finished(&self) -> (r: bool)
        ensures
            r == (action_at(self.point()) == Action::Finish),
            r == (self.point() == Point::Held || self.point() == Point::Refused || self.point()
                == Point::Released),
    {
        match self.point {
            Point::Held => true,
            Point::Refused => true,
            Point::Released => true,
            _ => false,
        }
    }

    /// The operation that the call asks for next.
    pub fn action(&self) -> (r: Action)
        ensures
            r == action_at(self.point()),
    {
        match self.point {
            Point::TryLoad => Action::Load,
            Point::TryExchange { seen } => Action::CompareExchange {
                current: seen,
                new: seen | LOCKED,
            },
            Point::FastLoad => Action::Load,
            Point::FastExchange { seen } => Action::CompareExchange {
                current: seen,
                new: seen | LOCKED,
            },
            Point::SpinLoad { .. } => Action::Load,
            Point::SpinExchange { goal, tries: _, seen } => Action::CompareExchange {
                current: seen,
                new: seen | QUEUE_LOCKED | flags_to_set(goal),
            },
            Point::SpinBackoff { goal: _, tries } => if tries < QUEUE_SPIN_LIMIT {
                Action::SpinLoop
            } else {
                Action::YieldNow
            },
            Point::TakeFree => Action::Store { new: LOCKED },
            Point::Enqueue => Action::PushBack,
            Point::EnqueueDone => Action::FetchAnd { mask: !QUEUE_LOCKED },
            Point::WaitLoad { .. } => Action::Load,
            Point::WaitSpin { .. } => Action::SpinLoop,
            Point::ParkLoad => Action::Load,
            Point::Park => Action::Park,
            Point::ClaimFront { .. } => Action::PeekFront,
            Point::ClaimLoad { .. } => Action::Load,
            Point::ClaimPop => Action::PopFront,
            Point::ClaimStore { more } => Action::Store { new: claimed(more) },
            Point::ClaimGiveUp { .. } => Action::FetchAnd { mask: !QUEUE_LOCKED },
            Point::ReleaseFront => Action::PeekFront,
            Point::ReleaseStore { next } => Action::Store {
                new: released(next.is_some()) | QUEUE_LOCKED,
            },
            Point::ReleaseUnpark { thread_id } => Action::Unpark { thread_id },
            Point::ReleaseDone => Action::FetchAnd { mask: !QUEUE_LOCKED },
            Point::Held => Action::Finish,
            Point::Refused => Action::Finish,
            Point::Released => Action::Finish,
        }
    }

    /// Takes the answer to the operation that the call asked for. An answer to
    /// another operation changes nothing.
    pub fn resume(&mut self, event: Event)
        ensures
            final(self).thread_id() == old(self).thread_id(),
            final(self).point() == next_point(old(self).thread_id(), old(self).point(), event),
    {
        proof {
            use_type_invariant(&*self);
        }
        let me: u64 = self.me;
        self.point = match (self.point, event) {
            (Point::TryLoad, Event::Loaded(word)) => try_lock_on(word),
            (Point::TryExchange { .. }, Event::Exchanged(result)) => match result {
                Ok(_) => Point::Held,
                Err(actual) => try_lock_on(actual),
            },
            (Point::FastLoad, Event::Loaded(word)) => fast_path_on(word),
            (Point::FastExchange { .. }, Event::Exchanged(result)) => match result {
                Ok(_) => Point::Held,
                Err(actual) => fast_path_on(actual),
            },
            (Point::SpinLoad { goal, tries }, Event::Loaded(word)) => if is_queue_locked(word) {
                Point::SpinBackoff { goal, tries: tries + 1 }
            } else {
                Point::SpinExchange { goal, tries, seen: word }
            },
            (Point::SpinExchange { goal, tries, seen }, Event::Exchanged(result)) => match result {
                Ok(_) => spinlock_taken(goal, seen),
                Err(_) => Point::SpinBackoff { goal, tries: tries + 1 },
            },
            (Point::SpinBackoff { goal, tries }, Event::Done) => Point::SpinLoad {
                goal,
                tries: if tries < QUEUE_YIELD_LIMIT {
                    tries
                } else {
                    QUEUE_SPIN_LIMIT
                },
            },
            (Point::TakeFree, Event::Done) => Point::Held,
            (Point::Enqueue, Event::Done) => Point::EnqueueDone,
            (Point::EnqueueDone, Event::Done) => Point::WaitLoad { spins: 0 },
            (Point::WaitLoad { spins }, Event::Loaded(word)) => if is_woken(word) {
                Point::SpinLoad { goal: Goal::Claim { spins }, tries: 0 }
            } else {
                keep_waiting(spins)
            },
            (Point::WaitSpin { spins }, Event::Done) => Point::WaitLoad { spins: spins + 1 },
            (Point::ParkLoad, Event::Loaded(word)) => if is_woken(word) {
                Point::WaitLoad { spins: PARK_SPIN_BEFORE }
            } else {
                Point::Park
            },
            (Point::Park, Event::Done) => Point::WaitLoad { spins: PARK_SPIN_BEFORE },
            (Point::ClaimFront { spins }, Event::Front(front)) => match front {
                Some(thread_id) if thread_id == me => Point::ClaimLoad { spins },
                _ => Point::ClaimGiveUp { spins },
            },
            (Point::ClaimLoad { spins }, Event::Loaded(word)) => if is_woken(word) {
                Point::ClaimPop
            } else {
                Point::ClaimGiveUp { spins }
            },
            (Point::ClaimPop, Event::Popped { more }) => Point::ClaimStore { more },
            (Point::ClaimStore { .. }, Event::Done) => Point::Held,
            (Point::ClaimGiveUp { spins }, Event::Done) => keep_waiting(spins),
            (Point::ReleaseFront, Event::Front(front)) => Point::ReleaseStore { next: front },
            (Point::ReleaseStore { next }, Event::Done) => match next {
                Some(thread_id) => Point::ReleaseUnpark { thread_id },
                None => Point::ReleaseDone,
            },
            (Point::ReleaseUnpark { .. }, Event::Done) => Point::ReleaseDone,
            (Point::ReleaseDone, Event::Done) => Point::Released,
            (point, _) => point,
        };
    }
}

/// The flags that a thread sets together with `QUEUE_LOCKED`.
fn flags_to_set(goal: Goal) -> (r: u8)
    ensures
        r == extra_bits(goal),
{
    match goal {
        Goal::Enqueue => HAS_WAITERS,
        Goal::Claim { .. } => 0,
        Goal::Release => 0,
    }
}

/// Where `try_lock` goes on a state byte.
fn try_lock_on(word: u8) -> (r: Point)
    ensures
        r == try_on(word),
{
    if is_free(word) {
        Point::TryExchange { seen: word }
    } else {
        Point::Refused
    }
}

/// Where the fast path of `lock` goes on a state byte.
fn fast_path_on(word: u8) -> (r: Point)
    ensures
        r == fast_on(word),
{
    if is_free(word) {
        Point::FastExchange { seen: word }
    } else {
        Point::SpinLoad { goal: Goal::Enqueue, tries: 0 }
    }
}

/// Where a thread goes that took the queue's spinlock.
fn spinlock_taken(goal: Goal, seen: u8) -> (r: Point)
    ensures
        r == queue_entered(goal, seen),
{
    match goal {
        Goal::Enqueue => if is_unclaimed(seen) {
            Point::TakeFree
        } else {
            Point::Enqueue
        },
        Goal::Claim { spins } => Point::ClaimFront { spins },
        Goal::Release => Point::ReleaseFront,
    }
}

/// Where a waiter goes that cannot have the mutex now.
fn keep_waiting(spins: u32) -> (r: Point)
    ensures
        r == pause(spins),
{
    if spins < PARK_SPIN_BEFORE {
        Point::WaitSpin { spins }
    } else {
        Point::ParkLoad
    }
}

} // verus!
