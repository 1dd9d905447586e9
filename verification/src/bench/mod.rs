//! The decision logic of the benchmarks that compare the locks with others.

pub mod barrier;
pub mod heading;
pub mod mutex;
pub mod rwlock;
pub mod samples;
pub mod sweep;
pub mod task;
pub mod text;
