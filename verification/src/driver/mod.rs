//! Drivers.

pub mod w25q;
