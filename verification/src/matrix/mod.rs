//! Key matrices.

pub mod direct_pin;
