//! A single-node job scheduler: per-user jobs move from an inbox through a
//! queue into one execution slot, and the user served least so far goes first.

pub mod accounting;
pub mod backend;
pub mod dropbox;
pub mod job;
pub mod queue;
pub mod scheduler;
pub mod sequence;
