//! A single-user task tracker: an ordered list of tasks that can be added to
//! and completed, rendered as text, and driven by a line-oriented session.

pub mod task;
pub mod text;
pub mod session;
