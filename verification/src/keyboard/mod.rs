//! Keyboard logic.

pub mod deadline;
pub mod oneshot;
pub mod sticky;
pub mod sticky_key;
