//! A fixed-size worker pool, stated as a verified state machine.
//!
//! The pool's decisions (what a worker does next, what teardown must join) are
//! made here; the threads that act on them are driven by the caller.

pub mod queue;
pub mod worker;
pub mod pool;
pub mod http;
