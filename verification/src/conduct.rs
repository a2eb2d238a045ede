//! What a call does, in terms of the bytes and waiters that it meets, and what whole
//! operations do to the queue.
use vstd::prelude::*;

use crate::flags::{law_flag_bits, law_limits, law_stored_bytes, woken};
use crate::flags::{lemma_flag_updates, lemma_stored_flags};
use crate::laws::{law_unsignalled_waiter_parks, shown, undisturbed};
use crate::mutex::{answer, at_rest, claimed_memory, effect, locked_memory, may_claim, Memory};
use crate::mutex::{queued_memory, released_memory};
use crate::protocol::{action_at, next_point, Action, Event, Goal, Point};

verus! {

/// Who calls does not matter: two callers at the same point ask for the same and go the
/// same way on the same answer. Only at the front of the queue does a caller ask for
/// itself, and there two callers who both are, or both are not, the one that they see
/// go the same way.
pub proof fn law_callers_are_alike(a: u64, b: u64, point: Point, event: Event)
    ensures
        !(point is ClaimFront) ==> next_point(a, point, event) == next_point(b, point, event),
        forall|x: u64, y: u64|
            #![trigger next_point(a, point, Event::Front(Some(x))), next_point(
                b,
                point,
                Event::Front(Some(y)),
            )]
            (x == a <==> y == b) && point is ClaimFront ==> next_point(
                a,
                point,
                Event::Front(Some(x)),
            ) == next_point(b, point, Event::Front(Some(y))),
{
}

/// An answer moves a call only if it answers what the call asked for; a call that is
/// over stays so.
pub proof fn law_only_fitting_answers_count(me: u64, point: Point, event: Event)
    requires
        match action_at(point) {
            Action::Load => !(event is Loaded),
            Action::CompareExchange { .. } => !(event is Exchanged),
            Action::PeekFront => !(event is Front),
            Action::PopFront => !(event is Popped),
            Action::Finish => true,
            _ => event != Event::Done,
        },
    ensures
        next_point(me, point, event) == point,
{
}

/// A call is over, and asks for nothing, exactly when the lock is held, refused or
/// released.
pub proof fn law_when_a_call_is_over(point: Point)
    ensures
        action_at(point) == Action::Finish <==> (point == Point::Held || point == Point::Refused
            || point == Point::Released),
{
}

/// `try_lock` reads the state. Any flag makes it give up. Otherwise it tries to set
/// `LOCKED` over just the byte that it read, has the lock if that succeeds, and goes on
/// with the byte that stood in the way, as if it had read that, if it does not.
pub proof fn law_conduct_of_try_lock(me: u64, word: u8, replaced: u8, actual: u8)
    ensures
        action_at(Point::TryLoad) == Action::Load,
        ({
            let point = next_point(me, Point::TryLoad, Event::Loaded(word));
            &&& word & 0b1111 != 0 ==> point == Point::Refused
            &&& word & 0b1111 == 0 ==> {
                &&& action_at(point) == (Action::CompareExchange {
                    current: word,
                    new: word | 0b0001,
                })
                &&& next_point(me, point, Event::Exchanged(Ok(replaced))) == Point::Held
                &&& next_point(me, point, Event::Exchanged(Err(actual))) == next_point(
                    me,
                    Point::TryLoad,
                    Event::Loaded(actual),
                )
            }
        }),
{
    law_flag_bits(word);
}

/// `lock` begins like `try_lock`, but where that gives up it goes for the queue.
pub proof fn law_conduct_of_fast_path(me: u64, word: u8, replaced: u8, actual: u8)
    ensures
        action_at(Point::FastLoad) == Action::Load,
        ({
            let point = next_point(me, Point::FastLoad, Event::Loaded(word));
            &&& word & 0b1111 != 0 ==> point == (Point::SpinLoad {
                goal: Goal::Enqueue,
                tries: 0,
            })
            &&& word & 0b1111 == 0 ==> {
                &&& action_at(point) == (Action::CompareExchange {
                    current: word,
                    new: word | 0b0001,
                })
                &&& next_point(me, point, Event::Exchanged(Ok(replaced))) == Point::Held
                &&& next_point(me, point, Event::Exchanged(Err(actual))) == next_point(
                    me,
                    Point::FastLoad,
                    Event::Loaded(actual),
                )
            }
        }),
{
    law_flag_bits(word);
}

/// A thread that wants the queue reads the state. If nobody has the queue, it tries to
/// set `QUEUE_LOCKED`, and `HAS_WAITERS` with it if it wants to queue, over just the byte
/// that it read. If somebody has it, or the try fails, that is one failure more, and it
/// lets time pass before it reads again, for the same purpose: by spinning up to the
/// thirty-first failure, by yielding from then on. The count goes back to 32 after 128.
pub proof fn law_conduct_at_the_spinlock(me: u64, goal: Goal, tries: u32, word: u8, actual: u8)
    requires
        tries < 128,
    ensures
        action_at(Point::SpinLoad { goal, tries }) == Action::Load,
        ({
            let point = next_point(me, Point::SpinLoad { goal, tries }, Event::Loaded(word));
            let failed = Point::SpinBackoff { goal, tries: (tries + 1) as u32 };
            &&& word & 0b0100 != 0 ==> point == failed
            &&& word & 0b0100 == 0 ==> {
                &&& action_at(point) == (Action::CompareExchange {
                    current: word,
                    new: word | if goal == Goal::Enqueue {
                        0b0110u8
                    } else {
                        0b0100u8
                    },
                })
                &&& next_point(me, point, Event::Exchanged(Err(actual))) == failed
            }
            &&& action_at(failed) == if tries < 31 {
                Action::SpinLoop
            } else {
                Action::YieldNow
            }
            &&& next_point(me, failed, Event::Done) == (Point::SpinLoad {
                goal,
                tries: if tries < 127 {
                    (tries + 1) as u32
                } else {
                    32
                },
            })
        }),
{
    law_flag_bits(word);
    law_limits();
    assert(word | 4u8 | 2u8 == word | 0b0110) by (bit_vector);
    assert(word | 4u8 | 0u8 == word | 0b0100) by (bit_vector);
}

/// A thread that came to queue and has the queue: if nobody had the lock, waited or was
/// signalled, it takes the lock by storing `LOCKED` alone. Otherwise it joins the queue at
/// the back, clears `QUEUE_LOCKED`, and starts to wait with no spin counted.
pub proof fn law_conduct_of_enqueueing(me: u64, tries: u32, word: u8)
    requires
        word & 0b0100 == 0,
    ensures
        ({
            let free = Point::SpinLoad { goal: Goal::Enqueue, tries };
            let point = next_point(
                me,
                next_point(me, free, Event::Loaded(word)),
                Event::Exchanged(Ok(word)),
            );
            let joined = next_point(me, point, Event::Done);
            &&& word & 0b1011 == 0 ==> {
                &&& action_at(point) == (Action::Store { new: 0b0001 })
                &&& next_point(me, point, Event::Done) == Point::Held
            }
            &&& word & 0b1011 != 0 ==> {
                &&& action_at(point) == Action::PushBack
                &&& action_at(joined) == (Action::FetchAnd { mask: 0b1111_1011 })
                &&& next_point(me, joined, Event::Done) == (Point::WaitLoad { spins: 0 })
            }
        }),
{
    law_flag_bits(word);
}

/// A waiter that came to claim and has the queue: it looks who is at the front. If that is
/// itself, it checks that `WOKEN` is set; then it leaves the queue, stores `LOCKED`, and
/// `HAS_WAITERS` if others remain, and has the lock. In every other case it clears
/// `QUEUE_LOCKED` and waits on, with as many spins counted as before.
pub proof fn law_conduct_of_claiming(
    me: u64,
    spins: u32,
    tries: u32,
    word: u8,
    seen: Option<u64>,
    again: u8,
    more: bool,
)
    requires
        word & 0b0100 == 0,
    ensures
        ({
            let free = Point::SpinLoad { goal: Goal::Claim { spins }, tries };
            let point = next_point(
                me,
                next_point(me, free, Event::Loaded(word)),
                Event::Exchanged(Ok(word)),
            );
            let looked = next_point(me, point, Event::Front(seen));
            let checked = next_point(me, looked, Event::Loaded(again));
            let popped = next_point(me, checked, Event::Popped { more });
            let waits_on = |p: Point|
                {
                    &&& action_at(p) == (Action::FetchAnd { mask: 0b1111_1011 })
                    &&& next_point(me, p, Event::Done) == if spins < 100 {
                        Point::WaitSpin { spins }
                    } else {
                        Point::ParkLoad
                    }
                };
            &&& action_at(point) == Action::PeekFront
            &&& seen != Some(me) ==> waits_on(looked)
            &&& seen == Some(me) ==> action_at(looked) == Action::Load
            &&& seen == Some(me) && again & 0b1000 == 0 ==> waits_on(checked)
            &&& seen == Some(me) && again & 0b1000 != 0 ==> {
                &&& action_at(checked) == Action::PopFront
                &&& action_at(popped) == (Action::Store {
                    new: if more {
                        0b0011u8
                    } else {
                        0b0001u8
                    },
                })
                &&& next_point(me, popped, Event::Done) == Point::Held
            }
        }),
{
    law_flag_bits(word);
    law_flag_bits(again);
    law_stored_bytes();
    law_limits();
}

/// A thread that came to release and has the queue: it looks who is at the front. With
/// nobody there it stores `QUEUE_LOCKED` alone. With a waiter there it stores that,
/// `HAS_WAITERS` and `WOKEN`, and unparks this waiter. Then it clears `QUEUE_LOCKED`, and
/// the lock is released.
pub proof fn law_conduct_of_releasing(me: u64, tries: u32, word: u8, waiter: u64)
    requires
        word & 0b0100 == 0,
    ensures
        ({
            let free = Point::SpinLoad { goal: Goal::Release, tries };
            let point = next_point(
                me,
                next_point(me, free, Event::Loaded(word)),
                Event::Exchanged(Ok(word)),
            );
            let alone = next_point(me, point, Event::Front(None));
            let waited_for = next_point(me, point, Event::Front(Some(waiter)));
            let signalled = next_point(me, waited_for, Event::Done);
            let ends = |p: Point|
                {
                    &&& action_at(p) == (Action::FetchAnd { mask: 0b1111_1011 })
                    &&& next_point(me, p, Event::Done) == Point::Released
                };
            &&& action_at(point) == Action::PeekFront
            &&& action_at(alone) == (Action::Store { new: 0b0100 })
            &&& ends(next_point(me, alone, Event::Done))
            &&& action_at(waited_for) == (Action::Store { new: 0b1110 })
            &&& action_at(signalled) == (Action::Unpark { thread_id: waiter })
            &&& ends(next_point(me, signalled, Event::Done))
        }),
{
    law_flag_bits(word);
    law_stored_bytes();
}

/// A waiter reads the state. If `WOKEN` is set, it goes for the queue to claim. Otherwise it
/// spins once and counts it, while fewer than a hundred are counted; then it reads once
/// more, and parks unless `WOKEN` is set. When it wakes up, it reads again.
pub proof fn law_conduct_of_waiting(me: u64, spins: u32, word: u8, again: u8)
    requires
        spins <= 100,
    ensures
        action_at(Point::WaitLoad { spins }) == Action::Load,
        ({
            let point = next_point(me, Point::WaitLoad { spins }, Event::Loaded(word));
            let parking = next_point(me, point, Event::Loaded(again));
            &&& word & 0b1000 != 0 ==> point == (Point::SpinLoad {
                goal: Goal::Claim { spins },
                tries: 0,
            })
            &&& word & 0b1000 == 0 && spins < 100 ==> {
                &&& action_at(point) == Action::SpinLoop
                &&& next_point(me, point, Event::Done) == (Point::WaitLoad {
                    spins: (spins + 1) as u32,
                })
            }
            &&& word & 0b1000 == 0 && spins == 100 ==> {
                &&& action_at(point) == Action::Load
                &&& again & 0b1000 != 0 ==> parking == (Point::WaitLoad { spins: 100 })
                &&& again & 0b1000 == 0 ==> {
                    &&& action_at(parking) == Action::Park
                    &&& next_point(me, parking, Event::Done) == (Point::WaitLoad { spins: 100 })
                }
            }
        }),
{
    law_flag_bits(word);
    law_flag_bits(again);
    law_limits();
}

/// The number of spins among as many steps as there are bytes, each read showing the byte
/// of its step.
pub open spec fn spins_shown(me: u64, point: Point, bytes: Seq<u8>) -> nat
    decreases bytes.len(),
{
    if bytes.len() == 0 {
        0
    } else {
        spins_shown(me, point, bytes.drop_last()) + if action_at(
            shown(me, point, bytes.drop_last()),
        ) == Action::SpinLoop {
            1nat
        } else {
            0nat
        }
    }
}

/// From the start of waiting, every other step is a spin.
proof fn lemma_every_other_step_spins(me: u64, bytes: Seq<u8>)
    requires
        1 <= bytes.len() <= 203,
        forall|i: int| 0 <= i < bytes.len() ==> #[trigger] bytes[i] & 0b1000 == 0,
    ensures
        ({
            let n = bytes.len() - 1;
            &&& n < 200 ==> shown(me, Point::EnqueueDone, bytes) == if n % 2 == 0 {
                Point::WaitLoad { spins: (n / 2) as u32 }
            } else {
                Point::WaitSpin { spins: (n / 2) as u32 }
            }
            &&& n == 200 ==> shown(me, Point::EnqueueDone, bytes) == (Point::WaitLoad {
                spins: 100,
            })
            &&& n == 201 ==> shown(me, Point::EnqueueDone, bytes) == Point::ParkLoad
            &&& n == 202 ==> shown(me, Point::EnqueueDone, bytes) == Point::Park
            &&& spins_shown(me, Point::EnqueueDone, bytes) == if n <= 200 {
                n / 2
            } else {
                100
            }
        }),
    decreases bytes.len(),
{
    let rest = bytes.drop_first();
    assert forall|i: int| 0 <= i < rest.len() implies !woken(
        #[trigger] rest[i],
    ) by {
        assert(bytes[i + 1] & 0b1000 == 0);
        law_flag_bits(rest[i]);
    }
    law_limits();
    law_unsignalled_waiter_parks(me, 0, rest);
    assert(shown(me, Point::EnqueueDone, bytes) == shown(me, Point::WaitLoad { spins: 0 }, rest));
    if bytes.len() > 1 {
        lemma_every_other_step_spins(me, bytes.drop_last());
    } else {
        assert(spins_shown(me, Point::EnqueueDone, bytes.drop_last()) == 0);
        assert(shown(me, Point::EnqueueDone, bytes.drop_last()) == Point::EnqueueDone);
        assert(rest.len() == 0);
    }
}

/// Hybrid waiting from the start: a thread that has just joined the queue and reads no byte
/// with `WOKEN` set clears `QUEUE_LOCKED`, spins exactly a hundred times, and then parks for
/// the first time.
pub proof fn law_waiter_spins_a_hundred_times(me: u64, bytes: Seq<u8>)
    requires
        bytes.len() == 203,
        forall|i: int| 0 <= i < bytes.len() ==> #[trigger] bytes[i] & 0b1000 == 0,
    ensures
        action_at(Point::EnqueueDone) == (Action::FetchAnd { mask: 0b1111_1011 }),
        action_at(shown(me, Point::EnqueueDone, bytes)) == Action::Park,
        spins_shown(me, Point::EnqueueDone, bytes) == 100,
        forall|k: int|
            0 <= k < 203 ==> action_at(#[trigger] shown(me, Point::EnqueueDone, bytes.take(k)))
                != Action::Park,
{
    law_flag_bits(0);
    lemma_every_other_step_spins(me, bytes);
    assert forall|k: int| 0 <= k < 203 implies action_at(
        #[trigger] shown(me, Point::EnqueueDone, bytes.take(k)),
    ) != Action::Park by {
        if k > 0 {
            let part = bytes.take(k);
            assert forall|i: int| 0 <= i < part.len() implies #[trigger] part[i] & 0b1000
                == 0 by {
                assert(part[i] == bytes[i]);
            }
            lemma_every_other_step_spins(me, part);
        }
    }
}

/// What the operations do to the memory and answer. A read changes nothing. An exchange
/// takes place exactly if the byte is the expected one and the exchange does not fail for
/// no reason, and answers the byte that it met. Joining puts the caller behind all others,
/// who stay where they are; a pop moves all but the front up by one. No operation touches
/// the protected value.
pub proof fn law_what_operations_do<T>(memory: Memory<T>, me: u64, action: Action, weak: bool)
    ensures
        ({
            let after = effect(memory, me, action, weak);
            let event = answer(memory, action, weak);
            &&& after.value == memory.value
            &&& match action {
                Action::Load => after == memory && event == Event::Loaded(memory.word),
                Action::CompareExchange { current, new } => {
                    &&& after.queue == memory.queue
                    &&& memory.word == current && !weak ==> after.word == new && event
                        == Event::Exchanged(Ok(current))
                    &&& memory.word != current || weak ==> after.word == memory.word && event
                        == Event::Exchanged(Err(memory.word))
                },
                Action::Store { new } => {
                    &&& after.queue == memory.queue
                    &&& after.word == new
                    &&& event == Event::Done
                },
                Action::FetchAnd { mask } => {
                    &&& after.queue == memory.queue
                    &&& after.word == memory.word & mask
                    &&& event == Event::Done
                },
                Action::PushBack => {
                    &&& after.word == memory.word
                    &&& after.queue.len() == memory.queue.len() + 1
                    &&& after.queue.last() == me
                    &&& forall|i: int|
                        0 <= i < memory.queue.len() ==> #[trigger] after.queue[i]
                            == memory.queue[i]
                    &&& event == Event::Done
                },
                Action::PeekFront => {
                    &&& after == memory
                    &&& memory.queue.len() == 0 ==> event == Event::Front(None)
                    &&& memory.queue.len() > 0 ==> event == Event::Front(Some(memory.queue[0]))
                },
                Action::PopFront => {
                    &&& after.word == memory.word
                    &&& memory.queue.len() == 0 ==> after.queue == memory.queue
                    &&& memory.queue.len() > 0 ==> after.queue.len() == memory.queue.len() - 1
                    &&& forall|i: int|
                        0 <= i < memory.queue.len() - 1 ==> #[trigger] after.queue[i]
                            == memory.queue[i + 1]
                    &&& event == (Event::Popped { more: memory.queue.len() >= 2 })
                },
                _ => after == memory && event == Event::Done,
            }
        }),
{
}

/// A thread that joins the queue comes last: every waiter keeps its place, and only
/// `HAS_WAITERS` is set.
pub proof fn law_newcomers_queue_last<T>(memory: Memory<T>, thread: u64)
    ensures
        ({
            let after = queued_memory(memory, thread);
            &&& after.queue.len() == memory.queue.len() + 1
            &&& after.queue.last() == thread
            &&& forall|i: int|
                0 <= i < memory.queue.len() ==> #[trigger] after.queue[i] == memory.queue[i]
            &&& after.word == memory.word | 0b0010
            &&& after.value == memory.value
        }),
{
}

/// A claim is made by the front, once it is signalled, and removes the front and nothing
/// else: every other waiter moves up by exactly one place.
pub proof fn law_claim_moves_everybody_up<T>(memory: Memory<T>, thread: u64)
    ensures
        may_claim(memory, thread) <==> {
            &&& memory.word & 0b1000 != 0
            &&& memory.queue.len() > 0
            &&& memory.queue[0] == thread
        },
        memory.queue.len() > 0 ==> {
            let after = claimed_memory(memory);
            &&& after.queue.len() == memory.queue.len() - 1
            &&& forall|i: int|
                0 <= i < memory.queue.len() - 1 ==> #[trigger] after.queue[i]
                    == memory.queue[i + 1]
            &&& after.word == if memory.queue.len() >= 2 {
                0b0011u8
            } else {
                0b0001u8
            }
            &&& after.value == memory.value
        },
{
    law_flag_bits(memory.word);
    law_stored_bytes();
}

/// A release loses no waiter and moves none: the queue stays as it is.
pub proof fn law_release_keeps_the_queue<T>(memory: Memory<T>)
    ensures
        ({
            let after = released_memory(memory);
            &&& after.queue == memory.queue
            &&& after.value == memory.value
            &&& after.word == if memory.queue.len() > 0 {
                0b1010u8
            } else {
                0b0000u8
            }
        }),
{
    law_stored_bytes();
}

/// Taking a free lock sets `LOCKED` and changes nothing else.
pub proof fn law_locking_only_sets_locked<T>(memory: Memory<T>)
    ensures
        locked_memory(memory).word == memory.word | 0b0001,
        locked_memory(memory).queue == memory.queue,
        locked_memory(memory).value == memory.value,
{
}

/// Between calls the mutex is in one of four states: free or held with nobody waiting, held
/// with waiters, or handed over to the front waiter.
pub proof fn law_states_at_rest<T>(memory: Memory<T>)
    ensures
        at_rest(memory) <==> {
            ||| memory.queue.len() == 0 && (memory.word == 0b0000 || memory.word == 0b0001)
            ||| memory.queue.len() > 0 && (memory.word == 0b0011 || memory.word == 0b1010)
        },
{
    let word = memory.word;
    law_flag_bits(word);
    assert(word < 16 && word & 0b0100 == 0 && (word & 0b1000 != 0) == (word & 0b0010 != 0 && word
        & 0b0001 == 0) ==> word == 0 || word == 1 || word == 3 || word == 10) by (bit_vector);
    assert(0u8 & 1 == 0 && 0u8 & 2 == 0 && 0u8 & 4 == 0 && 0u8 & 8 == 0) by (bit_vector);
    assert(1u8 & 1 != 0 && 1u8 & 2 == 0 && 1u8 & 4 == 0 && 1u8 & 8 == 0) by (bit_vector);
    assert(3u8 & 1 != 0 && 3u8 & 2 != 0 && 3u8 & 4 == 0 && 3u8 & 8 == 0) by (bit_vector);
    assert(10u8 & 1 == 0 && 10u8 & 2 != 0 && 10u8 & 4 == 0 && 10u8 & 8 != 0) by (bit_vector);
}

/// The memory after `k` hand-overs: each time the lock is released and the front waiter
/// claims it.
pub open spec fn handed_over<T>(memory: Memory<T>, k: nat) -> Memory<T>
    decreases k,
{
    if k == 0 {
        memory
    } else {
        claimed_memory(released_memory(handed_over(memory, (k - 1) as nat)))
    }
}

/// All waiters are served, each in its place: after `k` hand-overs just the first `k`
/// waiters are gone and the others stand in their old order, and the next release lets in
/// waiter number `k` and nobody else.
pub proof fn law_waiters_are_served_in_order<T>(memory: Memory<T>, k: nat, thread: u64)
    requires
        k <= memory.queue.len(),
    ensures
        handed_over(memory, k).queue =~= memory.queue.subrange(
            k as int,
            memory.queue.len() as int,
        ),
        handed_over(memory, k).value == memory.value,
        k < memory.queue.len() ==> (may_claim(released_memory(handed_over(memory, k)), thread)
            <==> thread == memory.queue[k as int]),
        k == memory.queue.len() ==> {
            &&& !may_claim(released_memory(handed_over(memory, k)), thread)
            &&& released_memory(handed_over(memory, k)).word == 0
        },
    decreases k,
{
    let before = released_memory(handed_over(memory, k));
    law_release_keeps_the_queue(handed_over(memory, k));
    law_claim_moves_everybody_up(before, thread);
    lemma_stored_flags();
    law_flag_bits(before.word);
    assert(10u8 & 8 != 0 && 0u8 & 8 == 0) by (bit_vector);
    if k > 0 {
        law_waiters_are_served_in_order(memory, (k - 1) as nat, thread);
        let last = released_memory(handed_over(memory, (k - 1) as nat));
        law_release_keeps_the_queue(handed_over(memory, (k - 1) as nat));
        law_claim_moves_everybody_up(last, thread);
    }
}

/// Two threads that join one after the other stand in that order, behind everybody else.
pub proof fn law_two_newcomers_keep_their_order<T>(memory: Memory<T>, a: u64, b: u64)
    ensures
        ({
            let queue = queued_memory(queued_memory(memory, a), b).queue;
            let n = memory.queue.len() as int;
            queue.len() == n + 2 && queue[n] == a && queue[n + 1] == b && queue.subrange(0, n)
                =~= memory.queue
        }),
{
}

/// Clearing the bit that a thread set on its way into the queue.
proof fn lemma_in_and_out(word: u8)
    by (bit_vector)
    requires
        word & 0b0100 == 0,
    ensures
        (word | 4u8 | 2u8) & 0b1111_1011 == word | 0b0010,
        (word | 4u8 | 0u8) & 0b1111_1011 == word,
        (word | 4u8 | 0u8) & 0b1000 == word & 0b1000,
        4u8 & 0b1111_1011u8 == 0,
        14u8 & 0b1111_1011u8 == 10,
{
}

/// `try_lock` of any caller that no other disturbs: on a free mutex it has the lock after
/// two steps, and on any other it gives up after one.
pub proof fn law_undisturbed_try_lock<T>(memory: Memory<T>, me: u64)
    ensures
        memory.word & 0b1111 == 0 ==> undisturbed(memory, me, Point::TryLoad, 2) == (
            Memory { word: memory.word | 0b0001, ..memory },
            Point::Held,
        ),
        memory.word & 0b1111 != 0 ==> undisturbed(memory, me, Point::TryLoad, 1) == (
            memory,
            Point::Refused,
        ),
{
    law_flag_bits(memory.word);
    reveal_with_fuel(undisturbed, 3);
}

/// `lock` of any caller that no other disturbs: on a free mutex it has the lock after two
/// steps. On any other, whose queue nobody has, the caller is last in the queue after five
/// steps and waits with no spin counted.
pub proof fn law_undisturbed_lock<T>(memory: Memory<T>, me: u64)
    ensures
        memory.word & 0b1111 == 0 ==> undisturbed(memory, me, Point::FastLoad, 2) == (
            Memory { word: memory.word | 0b0001, ..memory },
            Point::Held,
        ),
        memory.word & 0b1111 != 0 && memory.word & 0b0100 == 0 ==> {
            let (after, point) = undisturbed(memory, me, Point::FastLoad, 5);
            &&& point == (Point::WaitLoad { spins: 0 })
            &&& after.word == memory.word | 0b0010
            &&& after.value == memory.value
            &&& after.queue.len() == memory.queue.len() + 1
            &&& after.queue.last() == me
            &&& forall|i: int|
                0 <= i < memory.queue.len() ==> #[trigger] after.queue[i] == memory.queue[i]
        },
{
    let word = memory.word;
    law_flag_bits(word);
    lemma_flag_updates(word);
    if word & 0b0100 == 0 {
        lemma_in_and_out(word);
    }
    reveal_with_fuel(undisturbed, 6);
}

/// A claim of any waiter that no other disturbs, on a mutex whose queue nobody has: the
/// signalled front has the lock after six steps, with everybody else moved up by one. The
/// front without a signal, and any other caller, go back to waiting with the mutex as it
/// was and as many spins counted.
pub proof fn law_undisturbed_claim<T>(memory: Memory<T>, me: u64, spins: u32, tries: u32)
    requires
        memory.word & 0b0100 == 0,
        spins <= 100,
    ensures
        ({
            let start = Point::SpinLoad { goal: Goal::Claim { spins }, tries };
            let waiting = if spins < 100 {
                Point::WaitSpin { spins }
            } else {
                Point::ParkLoad
            };
            let is_front = memory.queue.len() > 0 && memory.queue[0] == me;
            &&& is_front && memory.word & 0b1000 != 0 ==> {
                let (after, point) = undisturbed(memory, me, start, 6);
                &&& point == Point::Held
                &&& after.value == memory.value
                &&& after.word == if memory.queue.len() >= 2 {
                    0b0011u8
                } else {
                    0b0001u8
                }
                &&& after.queue.len() == memory.queue.len() - 1
                &&& forall|i: int|
                    0 <= i < memory.queue.len() - 1 ==> #[trigger] after.queue[i]
                        == memory.queue[i + 1]
            }
            &&& is_front && memory.word & 0b1000 == 0 ==> undisturbed(memory, me, start, 5) == (
                memory,
                waiting,
            )
            &&& !is_front ==> undisturbed(memory, me, start, 4) == (memory, waiting)
        }),
{
    let word = memory.word;
    law_flag_bits(word);
    lemma_flag_updates(word);
    lemma_in_and_out(word);
    law_stored_bytes();
    law_limits();
    reveal_with_fuel(undisturbed, 7);
}

/// A release of any caller that no other disturbs, on a mutex whose queue nobody has: with
/// nobody waiting the byte is zero after five steps. With waiters the front is unparked in
/// the fifth of six steps, `HAS_WAITERS` and `WOKEN` are set, and the queue stays as it is.
pub proof fn law_undisturbed_release<T>(memory: Memory<T>, me: u64, tries: u32)
    requires
        memory.word & 0b0100 == 0,
    ensures
        ({
            let start = Point::SpinLoad { goal: Goal::Release, tries };
            &&& memory.queue.len() == 0 ==> undisturbed(memory, me, start, 5) == (
                Memory { word: 0, ..memory },
                Point::Released,
            )
            &&& memory.queue.len() > 0 ==> {
                &&& action_at(undisturbed(memory, me, start, 4).1) == (Action::Unpark {
                    thread_id: memory.queue[0],
                })
                &&& undisturbed(memory, me, start, 6) == (
                    Memory { word: 0b1010, ..memory },
                    Point::Released,
                )
            }
        }),
{
    let word = memory.word;
    law_flag_bits(word);
    lemma_flag_updates(word);
    lemma_in_and_out(word);
    law_stored_bytes();
    reveal_with_fuel(undisturbed, 7);
}

} // verus!
