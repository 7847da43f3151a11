//! Host communication protocol: frames, and the requests they carry.

pub mod action;
pub mod command;
pub mod deframer;
pub mod dfu;
pub mod frame;
pub mod morse;
pub mod wire;
