//! Events passed between the parts of the firmware.

pub mod action;
pub mod dfu;
pub mod dongle;
