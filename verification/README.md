# basic-mutex

A FIFO-ordered mutex, verified with Verus.

Threads that wait in `lock` take the mutex in the order in which they joined its
queue. A released mutex is handed to the waiter at the front; a newcomer cannot
overtake it. Waiting is hybrid: a waiter spins up to 100 times, then parks.

## The state byte

| Flag           | Bit mask      | Meaning                                             |
| -------------- | ------------- | --------------------------------------------------- |
| `LOCKED`       | `0b0000_0001` | A thread holds the mutex.                           |
| `HAS_WAITERS`  | `0b0000_0010` | At least one thread waits in the queue.             |
| `QUEUE_LOCKED` | `0b0000_0100` | A thread is working on the queue.                   |
| `WOKEN`        | `0b0000_1000` | The waiter at the front has been signalled to wake. |

## Layout

- `src/flags.rs`: the flags, and what is computed from a state byte.
- `src/protocol.rs`: the protocol as a table of points, operations and answers.
- `src/call.rs`: a call of one thread, the machine that follows the table.
- `src/mutex.rs`: the memory that threads share, and whole operations on it.
- `src/system.rs`: any number of threads, interleaved operation by operation, and the
  invariant of every state that they can reach.
- `src/laws.rs`, `src/progress.rs`: what follows for every interleaving: mutual
  exclusion, order of service, no barging, no lost wake-up, no deadlock.
- `src/liveness.rs`: when calls come to their end. A queued waiter gets the lock if
  guards are dropped and the threads that hand the lock over are scheduled and do not
  fail at the queue's spinlock for ever.
- `app/lib.rs`: the mutex on operating system threads. It performs what a call asks
  for on an atomic byte and with `std::thread`.

Operations on the state byte are taken to happen one at a time, in one order for all
threads.
