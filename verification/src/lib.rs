//! A cooperative-multitasking runtime core, modelled and verified.
//!
//! The library multiplexes many lightweight coroutines over a small pool of
//! worker threads.  A coroutine that issues a blocking-style I/O call is
//! suspended and registered with a selector backend; it is resumed when the
//! operating system reports readiness or completion, when its timeout
//! expires, or when it is cancelled.  The scheduler, the ready queue, the
//! timer subsystem, both backend models and the cancellation protocol live
//! here with their contracts; the actual operating-system calls (polling,
//! reading, sending, accepting) are performed outside and their outcomes are
//! handed to the verified logic as plain values.

pub mod errors;
pub mod loopback;
pub mod proactor;
pub mod queue;
pub mod race;
pub mod scheduler;
pub mod selector;
pub mod source;
pub mod timer;
