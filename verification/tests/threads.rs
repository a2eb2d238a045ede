//! Many calls on one mutex, interleaved step by step.
//!
//! Every test is run under a number of schedules, each drawn from a seed.
use basic_mutex::call::Call;
use basic_mutex::flags::{HAS_WAITERS, LOCKED, QUEUE_LOCKED, WOKEN};
use basic_mutex::protocol::{Action, Event, Point};
use basic_mutex::{BasicMutex, BasicMutexGuard};

const SCHEDULES: u64 = 40;

/// What a thread does with the lock, over and over.
#[derive(Clone, Copy, PartialEq)]
enum Task {
    /// `lock`, add one, release.
    Lock,
    /// `try_lock`; where it succeeds, add one and release.
    Try,
}

struct Worker {
    task: Task,
    rounds: u32,
    call: Option<Call>,
    guard: Option<BasicMutexGuard>,
    /// Steps to spend inside before releasing.
    stay: u32,
    /// The protected value as the thread left it.
    wrote: u64,
    increments: u64,
}

impl Worker {
    fn inside(&self) -> bool {
        self.guard.is_some()
    }
}

struct World {
    mutex: BasicMutex<u64>,
    workers: Vec<Worker>,
    tokens: Vec<bool>,
    arrivals: Vec<usize>,
    served: Vec<usize>,
    random: u64,
}

impl World {
    fn new(tasks: &[(Task, u32)], seed: u64) -> World {
        World {
            mutex: BasicMutex::new(0),
            workers: tasks
                .iter()
                .map(|&(task, rounds)| Worker {
                    task,
                    rounds,
                    call: None,
                    guard: None,
                    stay: 0,
                    wrote: 0,
                    increments: 0,
                })
                .collect(),
            tokens: vec![false; tasks.len()],
            arrivals: vec![],
            served: vec![],
            random: seed.wrapping_mul(2654435761).wrapping_add(12345),
        }
    }

    fn draw(&mut self, bound: u64) -> u64 {
        self.random = self
            .random
            .wrapping_mul(6364136223846793005)
            .wrapping_add(1442695040888963407);
        (self.random >> 33) % bound
    }

    fn done(&self) -> bool {
        self.workers
            .iter()
            .all(|worker| worker.rounds == 0 && worker.call.is_none() && !worker.inside())
    }

    /// Lets a thread take a step; returns false if it has to wait for its park token.
    fn step(&mut self, i: usize) -> bool {
        let spurious = self.draw(8) == 0;
        let worker = &mut self.workers[i];
        let mut call = match worker.call.take() {
            Some(call) => call,
            None if worker.inside() && worker.stay > 0 => {
                worker.stay -= 1;
                return true;
            }
            None if worker.inside() => {
                let guard = worker.guard.take().unwrap();
                assert_eq!(*guard.deref(&self.mutex), worker.wrote);
                Call::release(i as u64)
            }
            None if worker.rounds == 0 => return false,
            None => {
                worker.rounds -= 1;
                match worker.task {
                    Task::Lock => Call::lock(i as u64),
                    Task::Try => Call::try_lock(i as u64),
                }
            }
        };
        let action = call.action();
        if action == Action::Park {
            if !self.tokens[i] && !spurious {
                self.workers[i].call = Some(call);
                return false;
            }
            self.tokens[i] = false;
        }
        if let Action::Unpark { thread_id } = action {
            self.tokens[thread_id as usize] = true;
        }
        match call.point() {
            Point::Enqueue => self.arrivals.push(i),
            Point::ClaimStore { .. } => self.served.push(i),
            _ => {}
        }
        let word = match self.mutex.perform(i as u64, Action::Load) {
            Event::Loaded(word) => word,
            _ => unreachable!(),
        };
        assert!(word < 16);
        if word & WOKEN != 0 {
            assert_eq!(word & (LOCKED | HAS_WAITERS), HAS_WAITERS);
        }
        if action == Action::PushBack || action == Action::PopFront {
            assert_eq!(word & QUEUE_LOCKED, QUEUE_LOCKED);
        }
        if let (Action::CompareExchange { .. }, true) = (action, spurious) {
            call.resume(Event::Exchanged(Err(word)));
        } else {
            self.mutex.step(&mut call);
        }
        if !call.is_finished() {
            self.workers[i].call = Some(call);
        } else if let Some(guard) = BasicMutexGuard::from_call(call) {
            self.enter(i, guard);
        }
        true
    }

    /// A thread got the lock.
    fn enter(&mut self, i: usize, mut guard: BasicMutexGuard) {
        assert!(self.workers.iter().all(|worker| !worker.inside()));
        let stay = self.draw(6) as u32;
        *guard.deref_mut(&mut self.mutex) += 1;
        let wrote = *guard.deref(&self.mutex);
        let worker = &mut self.workers[i];
        worker.guard = Some(guard);
        worker.stay = stay;
        worker.wrote = wrote;
        worker.increments += 1;
    }

    /// The protected value, after all threads are done.
    fn total(&mut self) -> u64 {
        let guard = self.mutex.lock(0).unwrap();
        let total = *guard.deref(&self.mutex);
        guard.drop(&mut self.mutex);
        total
    }

    /// Runs all threads to their end.
    fn run(&mut self) {
        let threads = self.workers.len() as u64;
        let mut idle = 0;
        while !self.done() {
            let i = self.draw(threads) as usize;
            idle = if self.step(i) { 0 } else { idle + 1 };
            assert!(idle < 5000, "no thread makes progress");
            assert!(self.arrivals.starts_with(&self.served));
        }
        assert_eq!(self.arrivals, self.served);
        assert_eq!(self.mutex.perform(0, Action::Load), Event::Loaded(0));
        assert_eq!(self.mutex.perform(0, Action::PeekFront), Event::Front(None));
    }
}

#[test]
fn test_mutual_exclusion() {
    for seed in 0..SCHEDULES {
        let mut world = World::new(&[(Task::Lock, 100); 4], seed);
        world.run();
        assert_eq!(world.total(), 400);
    }
}

#[test]
fn test_fifo_ordering() {
    for seed in 0..SCHEDULES {
        let mut world = World::new(&[(Task::Lock, 1); 5], seed);
        // Thread 4 takes the lock and keeps it while the others line up.
        while !world.workers[4].inside() {
            world.step(4);
        }
        world.workers[4].stay = 0;
        for i in 0..4 {
            while world.arrivals.len() <= i {
                world.step(i);
            }
            world.step(i);
        }
        world.run();
        assert_eq!(world.served, vec![0, 1, 2, 3]);
    }
}

#[test]
fn test_no_reentrancy() {
    for seed in 0..SCHEDULES {
        let mut world = World::new(&[(Task::Lock, 1); 2], seed);
        while !world.workers[0].inside() {
            world.step(0);
        }
        for _ in 0..1000 {
            world.step(1);
            assert!(!world.workers[1].inside());
        }
        world.run();
        assert_eq!(world.total(), 2);
    }
}

#[test]
fn test_high_contention_stress() {
    for seed in 0..SCHEDULES {
        let mut world = World::new(&[(Task::Lock, 100); 8], seed);
        world.run();
        assert_eq!(world.total(), 800);
    }
}

#[test]
fn test_contended_try_lock() {
    for seed in 0..SCHEDULES {
        let tasks = [
            (Task::Lock, 50),
            (Task::Lock, 50),
            (Task::Lock, 50),
            (Task::Lock, 50),
            (Task::Try, 200),
            (Task::Try, 200),
            (Task::Try, 200),
            (Task::Try, 200),
        ];
        let mut world = World::new(&tasks, seed);
        world.run();
        let lock_increments = 4 * 50u64;
        let try_increments: u64 = world.workers[4..].iter().map(|w| w.increments).sum();
        assert_eq!(world.total(), lock_increments + try_increments);
    }
}

#[test]
fn test_lost_wakeup_torture() {
    for seed in 0..SCHEDULES {
        let mut world = World::new(&[(Task::Lock, 50); 4], seed);
        world.run();
        assert_eq!(world.total(), 200);
    }
}

#[test]
fn a_stale_claim_loses_no_waiter() {
    // Two waiters see the signal; the first claims before the second gets the queue.
    let mut mutex = BasicMutex::new(());
    let guard = mutex.lock(1).unwrap();
    let mut first = Call::lock(2);
    let mut second = Call::lock(3);
    for call in [&mut first, &mut second] {
        while call.point() != (Point::WaitLoad { spins: 0 }) {
            mutex.step(call);
        }
    }
    guard.drop(&mut mutex);
    mutex.step(&mut second);
    while first.point() != Point::Held {
        mutex.step(&mut first);
    }
    for _ in 0..20 {
        mutex.step(&mut second);
    }
    assert_eq!(mutex.perform(0, Action::PeekFront), Event::Front(Some(3)));
    let mut release = Call::release(2);
    while !release.is_finished() {
        mutex.step(&mut release);
    }
    while second.point() != Point::Held {
        mutex.step(&mut second);
    }
    assert_eq!(mutex.perform(0, Action::Load), Event::Loaded(LOCKED));
}

#[test]
fn a_signalled_waiter_needs_at_most_eleven_steps() {
    let mut longest = 0;
    for waited in 0..250 {
        let mut mutex = BasicMutex::new(());
        let guard = mutex.lock(1).unwrap();
        let mut waiter = Call::lock(2);
        while waiter.point() != (Point::WaitLoad { spins: 0 }) {
            mutex.step(&mut waiter);
        }
        for _ in 0..waited {
            mutex.step(&mut waiter);
        }
        assert_eq!(guard.drop(&mut mutex), Some(2));
        let mut steps = 0;
        while waiter.point() != Point::Held {
            mutex.step(&mut waiter);
            steps += 1;
        }
        assert!(steps <= 11);
        longest = if steps > longest { steps } else { longest };
    }
    assert_eq!(longest, 8);
}

#[test]
fn only_the_thread_with_the_queue_flag_changes_the_state_meanwhile() {
    let mut mutex = BasicMutex::new(());
    let guard = mutex.lock(1).unwrap();
    let mut first = Call::lock(2);
    while first.point() != Point::Enqueue {
        mutex.step(&mut first);
    }
    let held = mutex.perform(0, Action::Load);
    let mut others = [Call::lock(3), Call::try_lock(4), Call::release(1)];
    for _ in 0..300 {
        for call in others.iter_mut() {
            mutex.step(call);
        }
    }
    assert_eq!(mutex.perform(0, Action::Load), held);
    assert_eq!(mutex.perform(0, Action::PeekFront), Event::Front(None));
    assert_eq!(others[1].point(), Point::Refused);
    mutex.step(&mut first);
    mutex.step(&mut first);
    assert_eq!(guard.drop(&mut mutex), Some(2));
}

#[test]
fn queued_waiters_are_served_although_a_newcomer_stands_still() {
    for seed in 0..SCHEDULES {
        let mut world = World::new(&[(Task::Lock, 20); 3], seed);
        while !world.workers[0].inside() {
            world.step(0);
        }
        // The newcomer has seen the queue free and never tries for it.
        let mut newcomer = Call::lock(9);
        world.mutex.step(&mut newcomer);
        world.mutex.step(&mut newcomer);
        world.run();
        assert_eq!(world.total(), 60);
        assert!(!newcomer.is_finished());
    }
}
