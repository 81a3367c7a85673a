//! A generic first-in-first-out queue over a ring-buffer deque.

pub mod laws;
pub mod queue;

pub use queue::Queue;
