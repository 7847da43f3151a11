//! DFU events.

use vstd::prelude::*;
use crate::dfu::DfuCmd;
use crate::types::DfuStatus;

verus! {

/// DFU status changed event.
#[derive(Clone, Copy, Debug, PartialEq, Eq, Structural)]
pub struct DfuStatusEvent(pub DfuStatus);

impl DfuStatusEvent {
    pub fn new(status: DfuStatus) -> (r: Self)
        ensures
            r == DfuStatusEvent(status),
    {
        DfuStatusEvent(status)
    }
}

/// DFU command event: published by the USB proxy and consumed by the flash handler
/// of the central and by the peripherals' managers.
pub struct DfuCmdEvent(pub DfuCmd);

} // verus!
