//! A thread-like concurrency library for an execution environment where true
//! OS threads do not exist, but isolated workers with message passing and
//! shared linear memory do.
//!
//! The verified core is the thread lifecycle machinery: the one-shot result
//! packet shared between a spawned unit of work and its join handle, the
//! single-shot completion signal, the spawn-relay protocol through the one
//! coordinating context that may create workers, and the scoped-thread
//! bookkeeping. The platform edge (creating a web worker, posting a message,
//! blocking on the signal) lives outside the library; it hands the state
//! machine plain values and performs the actions the state machine decides.

pub mod builder;
pub mod laws;
pub mod outcome;
pub mod runtime;
pub mod signal;
