//! Displays.

pub mod lcd;
