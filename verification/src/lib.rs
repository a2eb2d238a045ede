//! A mutex that serves its waiters first in, first out.
//!
//! All synchronisation state is packed into one byte (module [`flags`]), beside
//! a queue of waiting threads. A thread that locks or releases the mutex is a
//! [`Call`](call::Call): a state machine that names the next operation on the
//! shared memory and takes the operation's answer. Module [`protocol`] is the
//! table of that machine, module [`mutex`] is the shared memory it works on, and
//! module [`conduct`] says what each call does with the bytes and waiters that it
//! meets.
//!
//! Module [`system`] puts any number of such calls side by side, interleaved at the
//! grain of single memory operations. Modules [`laws`] and [`progress`] prove what
//! holds of every interleaving: mutual exclusion, service in order of arrival, no
//! barging, no lost wake-up, no deadlock. Module [`liveness`] says under which
//! conditions every call comes to its end.
pub mod call;
pub mod conduct;
pub mod flags;
pub mod laws;
pub mod liveness;
pub mod mutex;
pub mod progress;
pub mod protocol;
pub mod system;

pub use mutex::{BasicMutex, BasicMutexGuard};
