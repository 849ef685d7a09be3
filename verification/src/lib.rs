//! A small asynchronous runtime: tasks whose whole scheduling state lives in
//! one atomic word, a single-threaded executor, a few future combinators and
//! a helper that runs closures on threads.
//!
//! This crate holds the verified logic of the runtime: the task state
//! machine, the layout of a task allocation, the decisions of the futures,
//! and the bookkeeping of parallel jobs.
pub mod executor;
pub mod future;
pub mod layout;
pub mod parallel;
pub mod task;
pub mod waker;

