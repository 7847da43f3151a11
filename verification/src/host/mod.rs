//! Services for the host.

pub mod dfu;
