//! Dongle firmware: a BLE central that relays one bonded keyboard to a USB host.

pub mod central;
pub mod event;
pub mod link;
pub mod relay;
pub mod router;
pub mod vial_router;
