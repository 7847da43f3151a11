//! Bluetooth: addresses and link parameters, scanning, profiles and battery
//! reporting.

pub mod battery_service;
pub mod conn;
pub mod profile;
pub mod scan;
