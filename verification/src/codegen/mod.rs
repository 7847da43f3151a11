//! Code generation: from key names and device sections to what is to be built.

pub mod action;
pub mod adc;
pub mod names;
pub mod profile;
