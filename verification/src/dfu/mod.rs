//! Device firmware update: commands, flash writing, the key lock and the
//! registry of peripheral images.

use vstd::prelude::*;
use crate::bounded::DfuBlock;
use crate::split::SPLIT_PERIPHERALS_NUM;

pub mod flash;
pub mod lock;
pub mod registry;

verus! {

/// Max DFU alternate settings on a single DFU interface. Alt 0 is always the
/// central; the remaining slots are split peripherals.
pub const MAX_DFU_ALTS: usize = SPLIT_PERIPHERALS_NUM + 1;

/// Partition layout of the flash. The offsets are flash-relative.
#[derive(Clone, Copy, Debug, PartialEq, Eq, Structural)]
pub struct DfuFlashLayout {
    /// Offset of the DFU download partition.
    pub dfu_offset: u32,
    /// Size of the DFU download partition.
    pub dfu_size: u32,
    /// Offset of the boot state partition (holds the boot state flags).
    pub state_offset: u32,
    /// Size of the boot state partition.
    pub state_size: u32,
    /// Offset of the storage partition.
    pub storage_offset: u32,
    /// Size of the storage partition.
    pub storage_size: u32,
}

/// First byte of a region and the byte after its last.
#[derive(Clone, Copy, Debug, PartialEq, Eq, Structural)]
pub struct FlashRegion {
    pub start: u32,
    pub end: u32,
}

/// The partition layout, from the bounds that the linker script gives the three
/// regions.
pub fn dfu_flash_layout(state: FlashRegion, dfu: FlashRegion, storage: FlashRegion) -> (r:
    DfuFlashLayout)
    requires
        state.start <= state.end,
        dfu.start <= dfu.end,
        storage.start <= storage.end,
    ensures
        r.dfu_offset == dfu.start,
        r.dfu_offset + r.dfu_size == dfu.end,
        r.state_offset == state.start,
        r.state_offset + r.state_size == state.end,
        r.storage_offset == storage.start,
        r.storage_offset + r.storage_size == storage.end,
{
    DfuFlashLayout {
        dfu_offset: dfu.start,
        dfu_size: dfu.end - dfu.start,
        state_offset: state.start,
        state_size: state.end - state.start,
        storage_offset: storage.start,
        storage_size: storage.end - storage.start,
    }
}

/// Identifies the target of a DFU command: local central firmware or a specific
/// split peripheral.
#[derive(Clone, Copy, Debug, PartialEq, Eq, Structural)]
pub enum DfuTarget {
    Central,
    /// Commands from the split peripheral to its own flash.
    Local,
    ForwardPeripheral(u8),
}

/// A command forwarded from a DFU transport to the updater.
#[derive(Debug, PartialEq, Eq)]
pub enum DfuCmd {
    Start(DfuTarget),
    /// `Write(target, offset, data)`; offset is the flash byte offset.
    Write(DfuTarget, u32, DfuBlock),
    Finish(DfuTarget),
    SystemReset(DfuTarget),
    /// Wake-up signal to the unlock state machine.
    UnlockRequest,
    /// Peripheral requests end-to-end CRC verification (no target).
    ComputeCrc,
}

impl DfuCmd {
    pub open spec fn spec_target(self) -> Option<DfuTarget> {
        match self {
            DfuCmd::Start(t) => Some(t),
            DfuCmd::Write(t, _, _) => Some(t),
            DfuCmd::Finish(t) => Some(t),
            DfuCmd::SystemReset(t) => Some(t),
            DfuCmd::UnlockRequest => None,
            DfuCmd::ComputeCrc => None,
        }
    }

    /// The target (central or peripheral) of this command, if applicable.
    pub fn target(&self) -> (r: Option<DfuTarget>)
        ensures
            r == self.spec_target(),
    {
        match self {
            DfuCmd::Start(t) => Some(*t),
            DfuCmd::Write(t, _, _) => Some(*t),
            DfuCmd::Finish(t) => Some(*t),
            DfuCmd::SystemReset(t) => Some(*t),
            DfuCmd::UnlockRequest => None,
            DfuCmd::ComputeCrc => None,
        }
    }

    /// Returns `true` when this command is for the central flash updater.
    pub fn is_central(&self) -> (r: bool)
        ensures
            r == (self.spec_target() == Some(DfuTarget::Central)),
    {
        match self.target() {
            Some(DfuTarget::Central) => true,
            _ => false,
        }
    }

    /// Returns `true` when this command targets a known peripheral (valid id
    /// range).
    pub fn is_valid_peripheral(&self) -> (r: bool)
        ensures
            r == match self.spec_target() {
                Some(DfuTarget::ForwardPeripheral(id)) => id < MAX_DFU_ALTS,
                _ => false,
            },
    {
        match self.target() {
            Some(DfuTarget::ForwardPeripheral(id)) => (id as usize) < MAX_DFU_ALTS,
            _ => false,
        }
    }
}

// ---------------------------------------------------------------------------
// Laws
// ---------------------------------------------------------------------------

/// A command that starts, writes, finishes or resets is for the target it names; the others
/// are for none.
pub proof fn law_a_command_is_for_the_target_it_names(target: DfuTarget, offset: u32, data: DfuBlock)
    ensures
        DfuCmd::Start(target).spec_target() == Some(target),
        DfuCmd::Write(target, offset, data).spec_target() == Some(target),
        DfuCmd::Finish(target).spec_target() == Some(target),
        DfuCmd::SystemReset(target).spec_target() == Some(target),
        DfuCmd::UnlockRequest.spec_target() is None,
        DfuCmd::ComputeCrc.spec_target() is None,
{
}

} // verus!
