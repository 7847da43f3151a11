//! The split keyboard: one central and its peripherals, and what they say to
//! each other.

use vstd::prelude::*;
use crate::types::{BatteryStatus, ConnectionStatus, KeyboardEvent, PointingEvent};

pub mod ble;
pub mod dfu;
pub mod driver;
pub mod passthrough;
pub mod peripheral;

verus! {

/// Firmware bytes carried by one message of the split link.
pub const SPLIT_CHUNK_SIZE: usize = 128;

/// Peripherals of this keyboard.
pub const SPLIT_PERIPHERALS_NUM: usize = 4;

/// A message on the link between the central and a peripheral.
#[derive(Clone, Debug, PartialEq, Eq)]
pub enum SplitMessage {
    /// A key event of the peripheral's matrix.
    Key(KeyboardEvent),
    /// Motion of the peripheral's pointing device.
    Pointing(PointingEvent),
    /// The peripheral's battery.
    BatteryStatus(BatteryStatus),
    /// The central's transports.
    ConnectionStatus(ConnectionStatus),
    /// Forget the peer's address.
    ClearPeer,
    /// LED indicators, one bit each.
    KeyboardIndicator(u8),
    /// The active layer.
    Layer(u8),
    /// Words per minute.
    Wpm(u16),
    /// The held modifiers, one bit each.
    Modifier(u8),
    /// Whether the keyboard sleeps.
    SleepState(bool),
    /// Ask the peripheral for the CRC-32 of its firmware.
    FirmwareHashQuery,
    /// The CRC-32 of the peripheral's firmware.
    FirmwareHashResponse(u32),
    /// `len` bytes of firmware for byte offset `offset`.
    FirmwareChunk { offset: u32, len: u16, data: [u8; SPLIT_CHUNK_SIZE] },
    /// The chunk at `offset` was written; `crc` is its CRC-32.
    FirmwareChunkAck { offset: u32, crc: u32 },
    /// Every chunk was sent.
    FirmwareUpdateComplete,
    /// The CRC-32 of what the peripheral reads back.
    FirmwareCrcReport(u32),
    /// The read-back matches.
    FirmwareCrcOk,
    /// The read-back does not match.
    FirmwareCrcFail,
    /// The peripheral is about to start the new firmware.
    FirmwareUpdateConfirm,
    /// Restart.
    SystemReset,
}

} // verus!
