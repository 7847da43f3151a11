//! Verified core of the RMK keyboard firmware.
#![allow(unused_imports)]

pub mod ble;
pub mod bounded;
pub mod codegen;
pub mod config;
pub mod crc32;
pub mod dfu;
pub mod display;
pub mod dongle;
pub mod driver;
pub mod event;
pub mod host;
pub mod input_device;
pub mod keyboard;
pub mod matrix;
pub mod processor;
pub mod protocol;
pub mod split;
pub mod sticky;
pub mod text;
pub mod time;
pub mod types;
