//! The mutex: its state byte, the value it protects and its queue of waiters.
use std::collections::VecDeque;
use vstd::prelude::*;

use crate::call::Call;
use crate::flags::{claimed_word, free, has_waiters, lemma_flag_updates, lemma_stored_flags};
use crate::flags::{law_flag_bits, law_stored_bytes, locked, queue_locked, released_word, woken};
use crate::flags::{HAS_WAITERS, LOCKED, QUEUE_LOCKED};
use crate::protocol::{action_at, extra_bits, next_point, queue_entered};
use crate::protocol::{Action, Event, Goal, Point};

verus! {

/// What the threads share: the state byte, the threads in the queue, front first,
/// and the protected value.
pub struct Memory<T> {
    pub word: u8,
    pub queue: Seq<u64>,
    pub value: T,
}

/// The thread at the front of a queue.
pub open spec fn front(queue: Seq<u64>) -> Option<u64> {
    if queue.len() > 0 {
        Some(queue[0])
    } else {
        None
    }
}

/// What an action of the thread `me` makes of the memory. `weak` is true if an
/// exchange fails for no reason, as a weak one may.
pub open spec fn effect<T>(memory: Memory<T>, me: u64, action: Action, weak: bool) -> Memory<T> {
    match action {
        Action::CompareExchange { current, new } => if memory.word == current && !weak {
            Memory { word: new, ..memory }
        } else {
            memory
        },
        Action::Store { new } => Memory { word: new, ..memory },
        Action::FetchAnd { mask } => Memory { word: memory.word & mask, ..memory },
        Action::PushBack => Memory { queue: memory.queue.push(me), ..memory },
        Action::PopFront => if memory.queue.len() > 0 {
            Memory { queue: memory.queue.drop_first(), ..memory }
        } else {
            memory
        },
        _ => memory,
    }
}

/// What an action on the memory answers.
pub open spec fn answer<T>(memory: Memory<T>, action: Action, weak: bool) -> Event {
    match action {
        Action::Load => Event::Loaded(memory.word),
        Action::CompareExchange { current, new: _ } => if memory.word == current && !weak {
            Event::Exchanged(Ok(memory.word))
        } else {
            Event::Exchanged(Err(memory.word))
        },
        Action::PeekFront => Event::Front(front(memory.queue)),
        Action::PopFront => Event::Popped { more: memory.queue.len() > 1 },
        _ => Event::Done,
    }
}

/// The memory after a thread took a free lock.
pub open spec fn locked_memory<T>(memory: Memory<T>) -> Memory<T> {
    Memory { word: memory.word | LOCKED, ..memory }
}

/// The memory after a thread joined the queue.
pub open spec fn queued_memory<T>(memory: Memory<T>, thread: u64) -> Memory<T> {
    Memory { word: memory.word | HAS_WAITERS, queue: memory.queue.push(thread), ..memory }
}

/// The memory after the front waiter left the queue and took the lock.
pub open spec fn claimed_memory<T>(memory: Memory<T>) -> Memory<T> {
    Memory {
        word: claimed_word(memory.queue.len() > 1),
        queue: memory.queue.drop_first(),
        ..memory
    }
}

/// The memory after the lock was released: the front waiter, if there is one, is
/// signalled.
pub open spec fn released_memory<T>(memory: Memory<T>) -> Memory<T> {
    Memory { word: released_word(memory.queue.len() > 0), ..memory }
}

/// A thread may take the lock out of the queue: it is at the front and the front was
/// signalled.
pub open spec fn may_claim<T>(memory: Memory<T>, thread: u64) -> bool {
    woken(memory.word) && front(memory.queue) == Some(thread)
}

/// The flags agree with the queue: `HAS_WAITERS` says that it is not empty, and
/// its front is signalled exactly when nobody has the lock.
pub open spec fn settled<T>(memory: Memory<T>) -> bool {
    &&& has_waiters(memory.word) <==> memory.queue.len() > 0
    &&& woken(memory.word) <==> has_waiters(memory.word) && !locked(memory.word)
}

/// The mutex between calls: no thread is working on the queue, and the flags agree
/// with it.
pub open spec fn at_rest<T>(memory: Memory<T>) -> bool {
    memory.word < 16 && !queue_locked(memory.word) && settled(memory)
}

/// A mutual exclusion primitive that serves its waiters in order of arrival.
///
/// This is the memory that the threads share, as it stands between two operations.
/// Threads are named by numbers.
pub struct BasicMutex<T: Send> {
    /// The flags `LOCKED`, `HAS_WAITERS`, `QUEUE_LOCKED` and `WOKEN`.
    state: u8,
    /// The protected value. Access is guarded by the flag `LOCKED`.
    value: T,
    /// The waiting threads, front first. Access is guarded by the flag
    /// `QUEUE_LOCKED`.
    threads: VecDeque<u64>,
}

impl<T: Send> View for BasicMutex<T> {
    type V = Memory<T>;

    closed spec fn view(&self) -> Memory<T> {
        Memory { word: self.state, queue: self.threads@, value: self.value }
    }
}

impl<T: Send> BasicMutex<T> {
    /// Creates a new mutex in an unlocked state.
    pub fn new(value: T) -> (r: Self)
        ensures
            r@ == (Memory { word: 0, queue: Seq::empty(), value }),
            free(r@.word),
            at_rest(r@),
    {
        proof {
            lemma_stored_flags();
        }
        BasicMutex { state: 0, value, threads: VecDeque::new() }
    }

    /// Performs an operation on behalf of the thread `me`. A park returns at once.
    pub fn perform(&mut self, me: u64, action: Action) -> (event: Event)
        ensures
            final(self)@ == effect(old(self)@, me, action, false),
            event == answer(old(self)@, action, false),
            final(self)@.value == old(self)@.value,
            ({
                let (before, after) = (old(self)@, final(self)@);
                match action {
                    Action::Load => after == before && event == Event::Loaded(before.word),
                    Action::CompareExchange { current, new } => {
                        &&& after.queue == before.queue
                        &&& before.word == current ==> after.word == new && event
                            == Event::Exchanged(Ok(current))
                        &&& before.word != current ==> after.word == before.word && event
                            == Event::Exchanged(Err(before.word))
                    },
                    Action::Store { new } => {
                        &&& after.queue == before.queue
                        &&& after.word == new
                        &&& event == Event::Done
                    },
                    Action::FetchAnd { mask } => {
                        &&& after.queue == before.queue
                        &&& after.word == before.word & mask
                        &&& event == Event::Done
                    },
                    Action::PushBack => {
                        &&& after.word == before.word
                        &&& after.queue.len() == before.queue.len() + 1
                        &&& after.queue.last() == me
                        &&& forall|i: int|
                            0 <= i < before.queue.len() ==> #[trigger] after.queue[i]
                                == before.queue[i]
                        &&& event == Event::Done
                    },
                    Action::PeekFront => {
                        &&& after == before
                        &&& event == Event::Front(
                            if before.queue.len() > 0 {
                                Some(before.queue[0])
                            } else {
                                None
                            },
                        )
                    },
                    Action::PopFront => {
                        &&& after.word == before.word
                        &&& before.queue.len() > 0 ==> after.queue.len() + 1
                            == before.queue.len()
                        &&& forall|i: int|
                            0 <= i < before.queue.len() - 1 ==> #[trigger] after.queue[i]
                                == before.queue[i + 1]
                        &&& before.queue.len() == 0 ==> after.queue == before.queue
                        &&& event == Event::Popped { more: before.queue.len() >= 2 }
                    },
                    _ => after == before && event == Event::Done,
                }
            }),
    {
        match action {
            Action::Load => Event::Loaded(self.state),
            Action::CompareExchange { current, new } => {
                let seen: u8 = self.state;
                if seen == current {
                    self.state = new;
                    Event::Exchanged(Ok(seen))
                } else {
                    Event::Exchanged(Err(seen))
                }
            },
            Action::Store { new } => {
                self.state = new;
                Event::Done
            },
            Action::FetchAnd { mask } => {
                self.state = self.state & mask;
                Event::Done
            },
            Action::PushBack => {
                self.threads.push_back(me);
                Event::Done
            },
            Action::PeekFront => {
                if self.threads.len() > 0 {
                    Event::Front(Some(self.threads[0]))
                } else {
                    Event::Front(None)
                }
            },
            Action::PopFront => {
                let _ = self.threads.pop_front();
                Event::Popped { more: self.threads.len() > 0 }
            },
            _ => Event::Done,
        }
    }

    /// Lets a call take one step: performs the operation that it asks for and hands
    /// it the answer.
    pub fn step(&mut self, call: &mut Call)
        ensures
            final(self)@ == effect(
                old(self)@,
                old(call).thread_id(),
                action_at(old(call).point()),
                false,
            ),
            final(call).thread_id() == old(call).thread_id(),
            final(call).point() == next_point(
                old(call).thread_id(),
                old(call).point(),
                answer(old(self)@, action_at(old(call).point()), false),
            ),
    {
        let action = call.action();
        let event = self.perform(call.thread_id(), action);
        call.resume(event);
    }

    /// Acquires the queue's spinlock for a call that asks for it.
    ///
    /// It is free, so two steps suffice: the call reads the state byte and sets
    /// `QUEUE_LOCKED`, together with the flags that belong to its goal.
    pub fn acquire_queue_spinlock(&mut self, call: &mut Call)
        requires
            !queue_locked(old(self)@.word),
            old(call).point() is SpinLoad,
        ensures
            ({
                let goal = old(call).point()->SpinLoad_goal;
                let seen = old(self)@.word;
                &&& final(self)@ == (Memory {
                    word: seen | QUEUE_LOCKED | extra_bits(goal),
                    ..old(self)@
                })
                &&& final(call).point() == queue_entered(goal, seen)
                &&& final(self)@.word == seen | if goal == Goal::Enqueue {
                    0b0110u8
                } else {
                    0b0100u8
                }
                &&& final(self)@.queue == old(self)@.queue
                &&& final(self)@.value == old(self)@.value
            }),
            final(call).thread_id() == old(call).thread_id(),
    {
        proof {
            let word = self@.word;
            assert(word | QUEUE_LOCKED | HAS_WAITERS == word | 0b0110) by (bit_vector);
            assert(word | QUEUE_LOCKED | 0 == word | 0b0100) by (bit_vector);
        }
        self.step(call);
        self.step(call);
    }

    /// Attempts to acquire the lock without blocking.
    ///
    /// It succeeds if no flag is set, and changes nothing otherwise.
    pub fn try_lock(&mut self) -> (r: Option<BasicMutexGuard>)
        ensures
            r is Some <==> free(old(self)@.word),
            r is Some <==> old(self)@.word & 0b1111 == 0,
            r is Some ==> final(self)@ == locked_memory(old(self)@),
            r is Some ==> locked(final(self)@.word),
            r is Some ==> final(self)@.word == old(self)@.word | 0b0001,
            r is None ==> final(self)@ == old(self)@,
            final(self)@.queue == old(self)@.queue,
            final(self)@.value == old(self)@.value,
            at_rest(old(self)@) ==> at_rest(final(self)@),
    {
        proof {
            law_flag_bits(self@.word);
            lemma_flag_updates(self@.word);
        }
        let mut call = Call::try_lock(0);
        self.step(&mut call);
        if !call.is_finished() {
            self.step(&mut call);
        }
        BasicMutexGuard::from_call(call)
    }

    /// Acquires the lock for the thread `current_thread_id`, or queues the thread.
    ///
    /// If no flag is set, the thread has the lock. Otherwise it joins the queue at
    /// the back and has to wait: [`try_claim_lock`](BasicMutex::try_claim_lock) lets
    /// it in when its turn has come. No thread may be working on the queue, since
    /// the call would have to wait for it.
    pub fn lock(&mut self, current_thread_id: u64) -> (r: Option<BasicMutexGuard>)
        requires
            !queue_locked(old(self)@.word),
        ensures
            r is Some <==> free(old(self)@.word),
            r is Some <==> old(self)@.word & 0b1111 == 0,
            r is Some ==> final(self)@ == locked_memory(old(self)@),
            r is Some ==> locked(final(self)@.word),
            r is Some ==> final(self)@.word == old(self)@.word | 0b0001,
            r is Some ==> final(self)@.queue == old(self)@.queue,
            r is None ==> final(self)@ == queued_memory(old(self)@, current_thread_id),
            r is None ==> final(self)@.word == old(self)@.word | 0b0010,
            r is None ==> {
                &&& final(self)@.queue.len() == old(self)@.queue.len() + 1
                &&& final(self)@.queue.last() == current_thread_id
                &&& forall|i: int|
                    0 <= i < old(self)@.queue.len() ==> #[trigger] final(self)@.queue[i]
                        == old(self)@.queue[i]
            },
            final(self)@.value == old(self)@.value,
            r is None ==> {
                &&& has_waiters(final(self)@.word)
                &&& locked(final(self)@.word) == locked(old(self)@.word)
                &&& woken(final(self)@.word) == woken(old(self)@.word)
            },
            !queue_locked(final(self)@.word),
            at_rest(old(self)@) ==> at_rest(final(self)@),
    {
        let ghost word = self@.word;
        proof {
            law_flag_bits(word);
            lemma_flag_updates(word);
            lemma_queue_bit(word);
        }
        let mut call = Call::lock(current_thread_id);
        self.step(&mut call);
        if let Point::FastExchange { .. } = call.point() {
            self.step(&mut call);
        } else {
            self.acquire_queue_spinlock(&mut call);
            self.step(&mut call);
            self.step(&mut call);
            assert(call.point() == Point::WaitLoad { spins: 0 });
        }
        BasicMutexGuard::from_call(call)
    }

    /// Attempts to claim the lock for a thread in the queue.
    ///
    /// It succeeds if the thread is at the front and the front has been signalled;
    /// the thread then leaves the queue and has the lock. Otherwise nothing changes:
    /// the thread keeps its place. No thread may be working on the queue.
    pub fn try_claim_lock(&mut self, current_thread_id: u64) -> (r: Option<BasicMutexGuard>)
        requires
            !queue_locked(old(self)@.word),
        ensures
            r is Some <==> may_claim(old(self)@, current_thread_id),
            r is Some <==> {
                &&& old(self)@.word & 0b1000 != 0
                &&& old(self)@.queue.len() > 0
                &&& old(self)@.queue[0] == current_thread_id
            },
            r is Some ==> final(self)@ == claimed_memory(old(self)@),
            r is Some ==> {
                &&& final(self)@.queue.len() == old(self)@.queue.len() - 1
                &&& forall|i: int|
                    0 <= i < old(self)@.queue.len() - 1 ==> #[trigger] final(self)@.queue[i]
                        == old(self)@.queue[i + 1]
            },
            r is Some ==> final(self)@.word == if old(self)@.queue.len() >= 2 {
                0b0011u8
            } else {
                0b0001u8
            },
            final(self)@.value == old(self)@.value,
            r is Some ==> locked(final(self)@.word),
            r is None ==> final(self)@ == old(self)@,
            !queue_locked(final(self)@.word),
            at_rest(old(self)@) ==> at_rest(final(self)@),
    {
        let ghost word = self@.word;
        proof {
            lemma_flag_updates(word);
            lemma_queue_bit(word);
            lemma_stored_flags();
            law_flag_bits(word);
            law_stored_bytes();
        }
        let mut call = Call::claim(current_thread_id);
        self.acquire_queue_spinlock(&mut call);
        self.step(&mut call);
        if let Point::ClaimLoad { .. } = call.point() {
            self.step(&mut call);
            if let Point::ClaimPop = call.point() {
                self.step(&mut call);
            }
        }
        self.step(&mut call);
        BasicMutexGuard::from_call(call)
    }
}

/// A scoped lock of a mutex: it comes from acquiring the lock, and gives access to the
/// protected value until it is dropped.
///
/// A guard does not name its mutex. It is to be used with the mutex that it was
/// acquired from, which is locked as long as the guard is there.
pub struct BasicMutexGuard {
    held: (),
}

impl BasicMutexGuard {
    /// The guard that a call has won, if it holds the lock.
    pub fn from_call(call: Call) -> (r: Option<BasicMutexGuard>)
        ensures
            r is Some <==> call.point() == Point::Held,
    {
        match call.point() {
            Point::Held => Some(BasicMutexGuard { held: () }),
            _ => None,
        }
    }

    /// Reads the protected value.
    pub fn deref<'a, T: Send>(&self, mutex: &'a BasicMutex<T>) -> (r: &'a T)
        requires
            locked(mutex@.word),
        ensures
            *r == mutex@.value,
    {
        &mutex.value
    }

    /// Gives access to the protected value.
    pub fn deref_mut<'a, T: Send>(&mut self, mutex: &'a mut BasicMutex<T>) -> (r: &'a mut T)
        requires
            locked(old(mutex)@.word),
        ensures
            *r == old(mutex)@.value,
            final(mutex)@ == (Memory { value: *final(r), ..old(mutex)@ }),
    {
        &mut mutex.value
    }

    /// Releases the lock and returns the waiter that it unparks.
    ///
    /// If threads are queued, the lock is handed to the one at the front: new
    /// arrivals find `HAS_WAITERS` and `WOKEN` set and line up behind it. No thread may
    /// be working on the queue.
    pub fn drop<T: Send>(self, mutex: &mut BasicMutex<T>) -> (r: Option<u64>)
        requires
            locked(old(mutex)@.word),
            !queue_locked(old(mutex)@.word),
        ensures
            r == front(old(mutex)@.queue),
            r == if old(mutex)@.queue.len() > 0 {
                Some(old(mutex)@.queue[0])
            } else {
                None
            },
            final(mutex)@ == released_memory(old(mutex)@),
            final(mutex)@.queue == old(mutex)@.queue,
            final(mutex)@.value == old(mutex)@.value,
            final(mutex)@.word == if old(mutex)@.queue.len() > 0 {
                0b1010u8
            } else {
                0b0000u8
            },
            r is Some ==> woken(final(mutex)@.word),
            r is None ==> free(final(mutex)@.word),
            !queue_locked(final(mutex)@.word),
            at_rest(old(mutex)@) ==> at_rest(final(mutex)@),
    {
        let ghost word = mutex@.word;
        proof {
            lemma_flag_updates(word);
            lemma_queue_bit(word);
            lemma_stored_flags();
            law_stored_bytes();
            lemma_queue_bit(released_word(true));
            lemma_queue_bit(released_word(false));
        }
        let mut call = Call::release(0);
        mutex.acquire_queue_spinlock(&mut call);
        mutex.step(&mut call);
        mutex.step(&mut call);
        let mut woken_thread: Option<u64> = None;
        if let Point::ReleaseUnpark { thread_id } = call.point() {
            mutex.step(&mut call);
            woken_thread = Some(thread_id);
        }
        mutex.step(&mut call);
        woken_thread
    }
}

/// Setting `QUEUE_LOCKED` and clearing it again restores the byte; setting
/// `HAS_WAITERS` leaves the other flags.
proof fn lemma_queue_bit(word: u8)
    by (bit_vector)
    requires
        !queue_locked(word),
    ensures
        (word | QUEUE_LOCKED) & !QUEUE_LOCKED == word,
        (word | QUEUE_LOCKED | 0) & !QUEUE_LOCKED == word,
        (word | QUEUE_LOCKED | HAS_WAITERS) & !QUEUE_LOCKED == word | HAS_WAITERS,
        has_waiters(word | HAS_WAITERS),
        locked(word | HAS_WAITERS) == locked(word),
        !queue_locked(word | HAS_WAITERS),
        woken(word | HAS_WAITERS) == woken(word),
        word < 16 ==> word | HAS_WAITERS < 16,
{
}

} // verus!
