//! A small web server's moving parts, verified: a fixed-size worker pool and
//! the rules by which a request line becomes a response.
//!
//! The pool keeps an unbounded first-in first-out queue of jobs and the state
//! of a fixed number of workers. It decides which worker gets which job, when
//! a worker has to wait and when it may stop; creating the threads, putting
//! them to sleep and running a job are left to the caller, who tells the pool
//! of each such event.
//!
//! - `queue`: the queue of jobs.
//! - `model`: the pool as a state machine over its whole history.
//! - `laws`: what holds of every state that the machine can reach.
//! - `pool`: the pool itself, whose every operation is a step of the machine.
//! - `http`: routes and response bytes.
//! - `error`: why the pool refuses an operation.

pub mod error;
pub mod http;
pub mod laws;
pub mod model;
pub mod pool;
pub mod queue;
