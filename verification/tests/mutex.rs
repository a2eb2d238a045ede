//! The mutex under calls that run one after the other.
use basic_mutex::flags::{HAS_WAITERS, LOCKED, WOKEN};
use basic_mutex::protocol::{Action, Event};
use basic_mutex::{BasicMutex, BasicMutexGuard};

/// The thread that runs the test.
const MAIN: u64 = 0;

/// The state byte of a mutex.
fn word<T: Send>(mutex: &mut BasicMutex<T>) -> u8 {
    match mutex.perform(MAIN, Action::Load) {
        Event::Loaded(word) => word,
        other => panic!("a load was answered by {:?}", other),
    }
}

#[test]
fn test_basic_lock_unlock() {
    let mut mutex = BasicMutex::new(42);

    {
        let mut guard = mutex.try_lock().expect("Failed to try_lock");
        assert_eq!(*guard.deref(&mutex), 42);
        *guard.deref_mut(&mut mutex) = 100;
        guard.drop(&mut mutex);
    }

    {
        let mut guard = mutex.lock(MAIN).expect("Failed to lock");
        assert_eq!(*guard.deref(&mutex), 100);
        *guard.deref_mut(&mut mutex) = 200;
        guard.drop(&mut mutex);
    }

    let guard = mutex.lock(MAIN).expect("Failed to lock");
    assert_eq!(*guard.deref(&mutex), 200);
}

#[test]
fn test_try_lock_failure() {
    let mut mutex = BasicMutex::new(42);
    let _guard: BasicMutexGuard = mutex.lock(MAIN).expect("Failed to lock");
    assert!(mutex.try_lock().is_none());
}

#[test]
fn a_new_mutex_has_no_flag_set() {
    let mut mutex = BasicMutex::new(());
    assert_eq!(word(&mut mutex), 0);
}

#[test]
fn locking_sets_locked_and_releasing_clears_it() {
    let mut mutex = BasicMutex::new(());
    let guard = mutex.lock(1).unwrap();
    assert_eq!(word(&mut mutex), LOCKED);
    assert_eq!(guard.drop(&mut mutex), None);
    assert_eq!(word(&mut mutex), 0);
}

#[test]
fn a_refused_try_lock_changes_nothing() {
    let mut mutex = BasicMutex::new(7);
    let guard = mutex.lock(1).unwrap();
    assert!(mutex.lock(2).is_none());
    let before = word(&mut mutex);
    assert!(mutex.try_lock().is_none());
    assert_eq!(word(&mut mutex), before);
    assert_eq!(before, LOCKED | HAS_WAITERS);
    assert_eq!(*guard.deref(&mutex), 7);
}

#[test]
fn waiters_are_let_in_in_order_of_arrival() {
    let mut mutex = BasicMutex::new(());
    let mut guard = mutex.lock(9).unwrap();
    assert!(mutex.lock(3).is_none());
    assert!(mutex.lock(1).is_none());
    assert!(mutex.lock(2).is_none());
    for next in [3, 1, 2] {
        assert_eq!(guard.drop(&mut mutex), Some(next));
        assert_eq!(word(&mut mutex), HAS_WAITERS | WOKEN);
        for other in [1, 2, 3, 9] {
            if other != next {
                assert!(mutex.try_claim_lock(other).is_none());
            }
        }
        assert!(mutex.try_lock().is_none());
        guard = mutex.try_claim_lock(next).unwrap();
    }
    assert_eq!(word(&mut mutex), LOCKED);
    assert_eq!(guard.drop(&mut mutex), None);
    assert_eq!(word(&mut mutex), 0);
}

#[test]
fn a_waiter_that_is_not_signalled_keeps_its_place() {
    let mut mutex = BasicMutex::new(());
    let guard = mutex.lock(1).unwrap();
    assert!(mutex.lock(2).is_none());
    assert!(mutex.try_claim_lock(2).is_none());
    assert_eq!(
        mutex.perform(MAIN, Action::PeekFront),
        Event::Front(Some(2))
    );
    assert_eq!(guard.drop(&mut mutex), Some(2));
    assert!(mutex.try_claim_lock(2).is_some());
}

#[test]
fn a_newcomer_queues_behind_a_signalled_waiter() {
    let mut mutex = BasicMutex::new(());
    let guard = mutex.lock(1).unwrap();
    assert!(mutex.lock(2).is_none());
    guard.drop(&mut mutex);
    assert!(mutex.lock(3).is_none());
    assert!(mutex.try_claim_lock(3).is_none());
    let guard = mutex.try_claim_lock(2).unwrap();
    assert_eq!(word(&mut mutex), LOCKED | HAS_WAITERS);
    assert_eq!(guard.drop(&mut mutex), Some(3));
    assert!(mutex.try_claim_lock(3).is_some());
    assert_eq!(word(&mut mutex), LOCKED);
}

#[test]
fn operations_answer_as_the_memory_stands() {
    let mut mutex = BasicMutex::new(());
    let exchange = Action::CompareExchange { current: 1, new: 5 };
    assert_eq!(mutex.perform(4, exchange), Event::Exchanged(Err(0)));
    assert_eq!(mutex.perform(4, Action::Store { new: 1 }), Event::Done);
    assert_eq!(mutex.perform(4, exchange), Event::Exchanged(Ok(1)));
    assert_eq!(mutex.perform(4, Action::Load), Event::Loaded(5));
    assert_eq!(mutex.perform(4, Action::FetchAnd { mask: !4 }), Event::Done);
    assert_eq!(mutex.perform(4, Action::Load), Event::Loaded(1));
    assert_eq!(mutex.perform(4, Action::PeekFront), Event::Front(None));
    assert_eq!(mutex.perform(4, Action::PushBack), Event::Done);
    assert_eq!(mutex.perform(5, Action::PushBack), Event::Done);
    assert_eq!(mutex.perform(4, Action::PeekFront), Event::Front(Some(4)));
    assert_eq!(mutex.perform(4, Action::PopFront), Event::Popped { more: true });
    assert_eq!(mutex.perform(4, Action::PopFront), Event::Popped { more: false });
    assert_eq!(mutex.perform(4, Action::PopFront), Event::Popped { more: false });
    assert_eq!(mutex.perform(4, Action::Park), Event::Done);
}

#[test]
fn a_nested_lock_waits_for_its_own_holder() {
    let mut mutex = BasicMutex::new(42);
    let guard = mutex.lock(MAIN).unwrap();
    assert!(mutex.lock(MAIN).is_none());
    assert!(mutex.try_lock().is_none());
    assert!(mutex.try_claim_lock(MAIN).is_none());
    assert_eq!(guard.drop(&mut mutex), Some(MAIN));
    assert!(mutex.try_claim_lock(MAIN).is_some());
}
