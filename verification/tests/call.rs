//! Single calls, answered by hand.
use basic_mutex::call::Call;
use basic_mutex::flags::{claimed, is_free, is_queue_locked, is_unclaimed, is_woken, released};
use basic_mutex::flags::{HAS_WAITERS, LOCKED, PARK_SPIN_BEFORE, QUEUE_LOCKED};
use basic_mutex::flags::{QUEUE_SPIN_LIMIT, QUEUE_YIELD_LIMIT, WOKEN};
use basic_mutex::protocol::{Action, Event, Goal, Point};

/// Checks that the call asks for `action`, and answers it.
fn answer(call: &mut Call, action: Action, event: Event) {
    assert_eq!(call.action(), action);
    assert!(!call.is_finished());
    call.resume(event);
}

/// A call of `lock` that has joined the queue.
fn queued(me: u64) -> Call {
    let mut call = Call::lock(me);
    answer(&mut call, Action::Load, Event::Loaded(LOCKED));
    answer(&mut call, Action::Load, Event::Loaded(LOCKED));
    let exchange = Action::CompareExchange {
        current: LOCKED,
        new: LOCKED | QUEUE_LOCKED | HAS_WAITERS,
    };
    answer(&mut call, exchange, Event::Exchanged(Ok(LOCKED)));
    answer(&mut call, Action::PushBack, Event::Done);
    let unlock = Action::FetchAnd { mask: !QUEUE_LOCKED };
    answer(&mut call, unlock, Event::Done);
    call
}

#[test]
fn the_flags_are_single_bits() {
    assert_eq!(LOCKED, 1);
    assert_eq!(HAS_WAITERS, 2);
    assert_eq!(QUEUE_LOCKED, 4);
    assert_eq!(WOKEN, 8);
}

#[test]
fn flags_are_read_one_by_one() {
    for word in 0..16u8 {
        assert_eq!(is_free(word), word == 0);
        assert_eq!(is_unclaimed(word), word == 0 || word == QUEUE_LOCKED);
        assert_eq!(is_woken(word), word >= 8);
        assert_eq!(is_queue_locked(word), (word / 4) % 2 == 1);
    }
}

#[test]
fn stored_bytes() {
    assert_eq!(claimed(false), 0b0001);
    assert_eq!(claimed(true), 0b0011);
    assert_eq!(released(false), 0b0000);
    assert_eq!(released(true), 0b1010);
}

#[test]
fn try_lock_takes_a_free_mutex() {
    let mut call = Call::try_lock(1);
    answer(&mut call, Action::Load, Event::Loaded(0));
    let exchange = Action::CompareExchange { current: 0, new: LOCKED };
    answer(&mut call, exchange, Event::Exchanged(Ok(0)));
    assert_eq!(call.point(), Point::Held);
    assert!(call.is_finished());
    assert_eq!(call.action(), Action::Finish);
}

#[test]
fn try_lock_gives_up_on_every_flag() {
    for word in 1..16u8 {
        let mut call = Call::try_lock(1);
        call.resume(Event::Loaded(word));
        assert_eq!(call.point(), Point::Refused);
    }
}

#[test]
fn try_lock_repeats_an_exchange_that_failed_for_no_reason() {
    let mut call = Call::try_lock(1);
    call.resume(Event::Loaded(0));
    call.resume(Event::Exchanged(Err(0)));
    assert_eq!(call.point(), Point::TryExchange { seen: 0 });
    call.resume(Event::Exchanged(Err(LOCKED)));
    assert_eq!(call.point(), Point::Refused);
}

#[test]
fn lock_takes_a_free_mutex_on_the_fast_path() {
    let mut call = Call::lock(1);
    answer(&mut call, Action::Load, Event::Loaded(0));
    let exchange = Action::CompareExchange { current: 0, new: LOCKED };
    answer(&mut call, exchange, Event::Exchanged(Err(0)));
    answer(&mut call, exchange, Event::Exchanged(Ok(0)));
    assert_eq!(call.point(), Point::Held);
}

#[test]
fn lock_takes_a_mutex_that_became_free_before_it_queued() {
    let mut call = Call::lock(1);
    answer(&mut call, Action::Load, Event::Loaded(QUEUE_LOCKED));
    answer(&mut call, Action::Load, Event::Loaded(0));
    let exchange = Action::CompareExchange { current: 0, new: QUEUE_LOCKED | HAS_WAITERS };
    answer(&mut call, exchange, Event::Exchanged(Ok(0)));
    answer(&mut call, Action::Store { new: LOCKED }, Event::Done);
    assert_eq!(call.point(), Point::Held);
}

#[test]
fn a_waiter_spins_and_then_parks() {
    let mut call = queued(1);
    for _ in 0..PARK_SPIN_BEFORE {
        answer(&mut call, Action::Load, Event::Loaded(LOCKED | HAS_WAITERS));
        answer(&mut call, Action::SpinLoop, Event::Done);
    }
    for _ in 0..3 {
        answer(&mut call, Action::Load, Event::Loaded(LOCKED | HAS_WAITERS));
        answer(&mut call, Action::Load, Event::Loaded(LOCKED | HAS_WAITERS));
        answer(&mut call, Action::Park, Event::Done);
    }
    assert_eq!(call.point(), Point::WaitLoad { spins: PARK_SPIN_BEFORE });
    assert_eq!(PARK_SPIN_BEFORE, 100);
}

#[test]
fn a_waiter_does_not_park_on_a_signal() {
    let mut call = queued(1);
    for _ in 0..PARK_SPIN_BEFORE {
        call.resume(Event::Loaded(LOCKED | HAS_WAITERS));
        call.resume(Event::Done);
    }
    call.resume(Event::Loaded(LOCKED | HAS_WAITERS));
    assert_eq!(call.point(), Point::ParkLoad);
    call.resume(Event::Loaded(HAS_WAITERS | WOKEN));
    assert_eq!(call.point(), Point::WaitLoad { spins: PARK_SPIN_BEFORE });
}

#[test]
fn a_signalled_front_waiter_claims() {
    for more in [false, true] {
        let mut call = queued(6);
        let seen = HAS_WAITERS | WOKEN;
        answer(&mut call, Action::Load, Event::Loaded(seen));
        answer(&mut call, Action::Load, Event::Loaded(seen));
        let exchange = Action::CompareExchange { current: seen, new: seen | QUEUE_LOCKED };
        answer(&mut call, exchange, Event::Exchanged(Ok(seen)));
        answer(&mut call, Action::PeekFront, Event::Front(Some(6)));
        answer(&mut call, Action::Load, Event::Loaded(seen | QUEUE_LOCKED));
        answer(&mut call, Action::PopFront, Event::Popped { more });
        let store = Action::Store { new: if more { 0b0011 } else { 0b0001 } };
        answer(&mut call, store, Event::Done);
        assert_eq!(call.point(), Point::Held);
    }
}

#[test]
fn a_waiter_behind_the_front_gives_up_its_claim() {
    for front in [None, Some(5)] {
        let mut call = Call::claim(6);
        call.resume(Event::Loaded(HAS_WAITERS | WOKEN));
        call.resume(Event::Exchanged(Ok(HAS_WAITERS | WOKEN)));
        answer(&mut call, Action::PeekFront, Event::Front(front));
        let unlock = Action::FetchAnd { mask: !QUEUE_LOCKED };
        answer(&mut call, unlock, Event::Done);
        assert_eq!(call.point(), Point::WaitSpin { spins: 0 });
    }
}

#[test]
fn a_front_waiter_without_a_signal_stays_in_the_queue() {
    let mut call = Call::claim(6);
    call.resume(Event::Loaded(LOCKED | HAS_WAITERS));
    call.resume(Event::Exchanged(Ok(LOCKED | HAS_WAITERS)));
    answer(&mut call, Action::PeekFront, Event::Front(Some(6)));
    let word = LOCKED | HAS_WAITERS | QUEUE_LOCKED;
    answer(&mut call, Action::Load, Event::Loaded(word));
    let unlock = Action::FetchAnd { mask: !QUEUE_LOCKED };
    answer(&mut call, unlock, Event::Done);
    assert_eq!(call.point(), Point::WaitSpin { spins: 0 });
}

#[test]
fn the_spinlock_is_spun_on_then_yielded_for() {
    let mut call = Call::release(1);
    for failure in 1..=2 * QUEUE_YIELD_LIMIT {
        answer(&mut call, Action::Load, Event::Loaded(LOCKED | QUEUE_LOCKED));
        let pass = if failure < QUEUE_SPIN_LIMIT { Action::SpinLoop } else { Action::YieldNow };
        answer(&mut call, pass, Event::Done);
        if failure == QUEUE_YIELD_LIMIT {
            let goal = Goal::Release;
            assert_eq!(call.point(), Point::SpinLoad { goal, tries: QUEUE_SPIN_LIMIT });
        }
    }
    assert_eq!(QUEUE_SPIN_LIMIT, 32);
    assert_eq!(QUEUE_YIELD_LIMIT, 128);
}

#[test]
fn a_failed_exchange_counts_as_a_failure_at_the_spinlock() {
    let mut call = Call::release(1);
    call.resume(Event::Loaded(LOCKED));
    call.resume(Event::Exchanged(Err(LOCKED)));
    assert_eq!(call.point(), Point::SpinBackoff { goal: Goal::Release, tries: 1 });
}

#[test]
fn releasing_keeps_the_queue_until_the_waiter_is_unparked() {
    let mut call = Call::release(1);
    let seen = LOCKED | HAS_WAITERS;
    answer(&mut call, Action::Load, Event::Loaded(seen));
    let exchange = Action::CompareExchange { current: seen, new: seen | QUEUE_LOCKED };
    answer(&mut call, exchange, Event::Exchanged(Ok(seen)));
    answer(&mut call, Action::PeekFront, Event::Front(Some(8)));
    answer(&mut call, Action::Store { new: 0b1110 }, Event::Done);
    answer(&mut call, Action::Unpark { thread_id: 8 }, Event::Done);
    let unlock = Action::FetchAnd { mask: !QUEUE_LOCKED };
    answer(&mut call, unlock, Event::Done);
    assert_eq!(call.point(), Point::Released);
}

#[test]
fn releasing_with_nobody_waiting_unparks_nobody() {
    let mut call = Call::release(1);
    call.resume(Event::Loaded(LOCKED));
    call.resume(Event::Exchanged(Ok(LOCKED)));
    call.resume(Event::Front(None));
    answer(&mut call, Action::Store { new: 0b0100 }, Event::Done);
    let unlock = Action::FetchAnd { mask: !QUEUE_LOCKED };
    answer(&mut call, unlock, Event::Done);
    assert_eq!(call.point(), Point::Released);
}

#[test]
fn an_answer_to_another_operation_changes_nothing() {
    let mut call = Call::lock(3);
    call.resume(Event::Done);
    call.resume(Event::Front(Some(3)));
    assert_eq!(call.point(), Point::FastLoad);
    assert_eq!(call.thread_id(), 3);
}

#[test]
fn a_call_of_lock_ends_only_with_the_lock() {
    let events = [
        Event::Loaded(0),
        Event::Loaded(LOCKED),
        Event::Loaded(HAS_WAITERS | WOKEN),
        Event::Loaded(QUEUE_LOCKED),
        Event::Exchanged(Ok(0)),
        Event::Exchanged(Ok(LOCKED)),
        Event::Exchanged(Err(LOCKED)),
        Event::Front(None),
        Event::Front(Some(1)),
        Event::Popped { more: true },
        Event::Done,
    ];
    let mut random: u64 = 1;
    let mut ended = 0;
    for _ in 0..2000 {
        let mut call = Call::lock(1);
        for _ in 0..1000 {
            random = random.wrapping_mul(6364136223846793005).wrapping_add(1442695040888963407);
            call.resume(events[(random >> 33) as usize % events.len()]);
            if call.is_finished() {
                assert_eq!(call.point(), Point::Held);
                ended += 1;
                break;
            }
        }
    }
    assert!(ended > 0);
}

#[test]
fn a_waiter_parks_while_others_queue_up() {
    let bytes = [
        LOCKED | HAS_WAITERS,
        LOCKED | HAS_WAITERS | QUEUE_LOCKED,
        LOCKED,
        QUEUE_LOCKED | HAS_WAITERS,
        0,
    ];
    let mut call = queued(1);
    for i in 0..100 {
        answer(&mut call, Action::Load, Event::Loaded(bytes[i % 5]));
        answer(&mut call, Action::SpinLoop, Event::Done);
    }
    assert_eq!(call.point(), Point::WaitLoad { spins: 100 });
    answer(&mut call, Action::Load, Event::Loaded(bytes[1]));
    answer(&mut call, Action::Load, Event::Loaded(bytes[2]));
    assert_eq!(call.point(), Point::Park);
}
