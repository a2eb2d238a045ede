//! The state byte of the mutex and the limits of its waiting loops.
use vstd::prelude::*;

verus! {

/// The mutex is held by a thread.
pub const LOCKED: u8 = 0b0000_0001;

/// At least one thread is queued and waiting.
pub const HAS_WAITERS: u8 = 0b0000_0010;

/// A thread is working on the queue of waiters.
pub const QUEUE_LOCKED: u8 = 0b0000_0100;

/// The waiter at the front of the queue has been signalled to wake up.
pub const WOKEN: u8 = 0b0000_1000;

/// Failed attempts at the queue's spinlock after which a thread yields instead of
/// spinning.
pub const QUEUE_SPIN_LIMIT: u32 = 32;

/// Failed attempts at the queue's spinlock at which the count is set back to
/// `QUEUE_SPIN_LIMIT`.
pub const QUEUE_YIELD_LIMIT: u32 = 128;

/// Iterations that a queued thread spins before it parks.
pub const PARK_SPIN_BEFORE: u32 = 100;

/// The byte says that a thread holds the mutex.
pub open spec fn locked(word: u8) -> bool {
    word & LOCKED != 0
}

/// The byte says that a thread is queued.
pub open spec fn has_waiters(word: u8) -> bool {
    word & HAS_WAITERS != 0
}

/// The byte says that a thread is working on the queue.
pub open spec fn queue_locked(word: u8) -> bool {
    word & QUEUE_LOCKED != 0
}

/// The byte says that the front waiter has been signalled.
pub open spec fn woken(word: u8) -> bool {
    word & WOKEN != 0
}

/// Nobody holds the mutex, waits for it, was signalled, or works on the queue.
pub open spec fn free(word: u8) -> bool {
    !locked(word) && !has_waiters(word) && !queue_locked(word) && !woken(word)
}

/// Nobody holds the mutex, waits for it or was signalled; the queue may be busy.
pub open spec fn unclaimed(word: u8) -> bool {
    !locked(word) && !has_waiters(word) && !woken(word)
}

/// The byte that a waiter leaves when it takes the mutex and its place in the
/// queue is gone; `more` says whether other waiters remain.
pub open spec fn claimed_word(more: bool) -> u8 {
    if more {
        LOCKED | HAS_WAITERS
    } else {
        LOCKED
    }
}

/// The byte of a mutex that was released; `waiting` says whether a waiter at the
/// front of the queue takes over.
pub open spec fn released_word(waiting: bool) -> u8 {
    if waiting {
        HAS_WAITERS | WOKEN
    } else {
        0
    }
}

/// Whether none of the four flags is set: only then may a thread take the mutex
/// without queueing.
pub fn is_free(word: u8) -> (r: bool)
    ensures
        r == free(word),
        r == (word & 0b1111 == 0),
{
    proof {
        law_flag_bits(word);
    }
    assert((word & (LOCKED | HAS_WAITERS | QUEUE_LOCKED | WOKEN) == 0) == free(word))
        by (bit_vector);
    word & (LOCKED | HAS_WAITERS | QUEUE_LOCKED | WOKEN) == 0
}

/// Whether the mutex is neither held nor waited for nor handed over, whatever
/// happens to the queue.
pub fn is_unclaimed(word: u8) -> (r: bool)
    ensures
        r == unclaimed(word),
        r == (word & 0b1011 == 0),
{
    proof {
        law_flag_bits(word);
    }
    assert((word & (LOCKED | HAS_WAITERS | WOKEN) == 0) == unclaimed(word)) by (bit_vector);
    word & (LOCKED | HAS_WAITERS | WOKEN) == 0
}

/// Whether the front waiter has been signalled.
pub fn is_woken(word: u8) -> (r: bool)
    ensures
        r == woken(word),
        r == (word & 0b1000 != 0),
{
    word & WOKEN != 0
}

/// Whether a thread is working on the queue.
pub fn is_queue_locked(word: u8) -> (r: bool)
    ensures
        r == queue_locked(word),
        r == (word & 0b0100 != 0),
{
    word & QUEUE_LOCKED != 0
}

/// The byte that a waiter stores when it takes the mutex.
pub fn claimed(more: bool) -> (r: u8)
    ensures
        r == claimed_word(more),
        r == if more {
            0b0011u8
        } else {
            0b0001u8
        },
{
    proof {
        law_stored_bytes();
    }
    let mut new_state: u8 = LOCKED;
    if more {
        new_state |= HAS_WAITERS;
    }
    new_state
}

/// The byte of the mutex after its holder let go of it.
pub fn released(waiting: bool) -> (r: u8)
    ensures
        r == released_word(waiting),
        r == if waiting {
            0b1010u8
        } else {
            0b0000u8
        },
{
    proof {
        law_stored_bytes();
    }
    let mut new_state: u8 = 0u8;
    if waiting {
        assert(0u8 | (HAS_WAITERS | WOKEN) == HAS_WAITERS | WOKEN) by (bit_vector);
        new_state |= HAS_WAITERS | WOKEN;
    }
    new_state
}

/// The flags are the four low bits of the state byte, in the order `LOCKED`,
/// `HAS_WAITERS`, `QUEUE_LOCKED`, `WOKEN`, the lowest first.
pub proof fn law_flag_bits(word: u8)
    by (bit_vector)
    ensures
        locked(word) <==> word % 2 == 1,
        has_waiters(word) <==> (word / 2) % 2 == 1,
        queue_locked(word) <==> (word / 4) % 2 == 1,
        woken(word) <==> (word / 8) % 2 == 1,
        locked(word) <==> word & 0b0001 != 0,
        has_waiters(word) <==> word & 0b0010 != 0,
        queue_locked(word) <==> word & 0b0100 != 0,
        woken(word) <==> word & 0b1000 != 0,
        free(word) <==> word % 16 == 0,
        free(word) <==> word & 0b1111 == 0,
        unclaimed(word) <==> word & 0b1011 == 0,
        LOCKED == 1,
        HAS_WAITERS == 2,
        QUEUE_LOCKED == 4,
        WOKEN == 8,
        !QUEUE_LOCKED == 0b1111_1011u8,
{
}

/// The bytes that are stored as a whole: a waiter that takes the lock leaves `LOCKED`,
/// and `HAS_WAITERS` if others remain; a release leaves nothing, or `HAS_WAITERS` and
/// `WOKEN` if somebody waits.
pub proof fn law_stored_bytes()
    by (bit_vector)
    ensures
        claimed_word(false) == 1,
        claimed_word(true) == 3,
        released_word(false) == 0,
        released_word(true) == 10,
        released_word(false) | QUEUE_LOCKED == 4,
        released_word(true) | QUEUE_LOCKED == 14,
{
}

/// The limits of the waiting loops.
pub proof fn law_limits()
    ensures
        PARK_SPIN_BEFORE == 100,
        QUEUE_SPIN_LIMIT == 32,
        QUEUE_YIELD_LIMIT == 128,
{
}

/// What setting and clearing bits does to the four flags.
pub proof fn lemma_flag_updates(word: u8)
    by (bit_vector)
    ensures
        locked(word | LOCKED),
        has_waiters(word | LOCKED) == has_waiters(word),
        queue_locked(word | LOCKED) == queue_locked(word),
        woken(word | LOCKED) == woken(word),
        word | QUEUE_LOCKED | 0 == word | QUEUE_LOCKED,
        locked(word | QUEUE_LOCKED | 0) == locked(word),
        has_waiters(word | QUEUE_LOCKED | 0) == has_waiters(word),
        queue_locked(word | QUEUE_LOCKED | 0),
        woken(word | QUEUE_LOCKED | 0) == woken(word),
        locked(word | QUEUE_LOCKED | HAS_WAITERS) == locked(word),
        has_waiters(word | QUEUE_LOCKED | HAS_WAITERS),
        queue_locked(word | QUEUE_LOCKED | HAS_WAITERS),
        woken(word | QUEUE_LOCKED | HAS_WAITERS) == woken(word),
        locked(word & !QUEUE_LOCKED) == locked(word),
        has_waiters(word & !QUEUE_LOCKED) == has_waiters(word),
        !queue_locked(word & !QUEUE_LOCKED),
        woken(word & !QUEUE_LOCKED) == woken(word),
        word < 16 ==> word | LOCKED < 16,
        word < 16 ==> word | QUEUE_LOCKED | 0 < 16,
        word < 16 ==> word | QUEUE_LOCKED | HAS_WAITERS < 16,
        word < 16 ==> word & !QUEUE_LOCKED < 16,
{
}

/// The flags of the bytes that are stored as a whole.
pub proof fn lemma_stored_flags()
    by (bit_vector)
    ensures
        free(0),
        locked(LOCKED) && !has_waiters(LOCKED) && !queue_locked(LOCKED) && !woken(LOCKED),
        forall|more: bool|
            {
                let word = #[trigger] claimed_word(more);
                &&& locked(word)
                &&& has_waiters(word) == more
                &&& !queue_locked(word)
                &&& !woken(word)
                &&& word < 16
            },
        forall|waiting: bool|
            {
                let word = #[trigger] released_word(waiting);
                &&& !locked(word)
                &&& has_waiters(word) == waiting
                &&& !queue_locked(word)
                &&& woken(word) == waiting
                &&& word < 16
            },
{
}

} // verus!
