//! A verified model of a minimal cooperative task runtime for a small
//! device: exclusively owned output-line handles, a bounded task pool,
//! and a single-context scheduler that resumes periodic tasks in timer
//! order and parks between wake-ups.

pub mod handle;
pub mod laws;
pub mod sched;
pub mod task;
pub mod timing;
