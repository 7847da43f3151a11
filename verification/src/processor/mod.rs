//! Processors of events.

pub mod dfu_led;
