//! Commands of the host protocol, and their numbers on the wire.

use vstd::prelude::*;

verus! {

/// A command. Those without a name of their own are kept by their number.
#[derive(Clone, Copy, Debug, PartialEq, Eq, Structural)]
pub enum Cmd {
    GetVersion,
    GetCapabilities,
    GetLockStatus,
    DfuStart,
    DfuWrite,
    DfuCrcSync,
    DfuCrcRewind,
    DfuVerify,
    DfuFinish,
    DfuReset,
    Other(u16),
}

impl Cmd {
    pub open spec fn spec_raw(self) -> u16 {
        match self {
            Cmd::GetVersion => 0x0001,
            Cmd::GetCapabilities => 0x0002,
            Cmd::GetLockStatus => 0x0003,
            Cmd::DfuStart => 0x0D00,
            Cmd::DfuWrite => 0x0D01,
            Cmd::DfuCrcSync => 0x0D02,
            Cmd::DfuCrcRewind => 0x0D03,
            Cmd::DfuVerify => 0x0D04,
            Cmd::DfuFinish => 0x0D05,
            Cmd::DfuReset => 0x0D06,
            Cmd::Other(n) => n,
        }
    }

    /// Whether no named command has the number of this one, unless it is it.
    pub open spec fn canonical(self) -> bool {
        match self {
            Cmd::Other(n) => !(0x0001 <= n <= 0x0003) && !(0x0D00 <= n <= 0x0D06),
            _ => true,
        }
    }

    /// The command's number.
    pub fn raw(self) -> (r: u16)
        ensures
            r == self.spec_raw(),
    {
        match self {
            Cmd::GetVersion => 0x0001,
            Cmd::GetCapabilities => 0x0002,
            Cmd::GetLockStatus => 0x0003,
            Cmd::DfuStart => 0x0D00,
            Cmd::DfuWrite => 0x0D01,
            Cmd::DfuCrcSync => 0x0D02,
            Cmd::DfuCrcRewind => 0x0D03,
            Cmd::DfuVerify => 0x0D04,
            Cmd::DfuFinish => 0x0D05,
            Cmd::DfuReset => 0x0D06,
            Cmd::Other(n) => n,
        }
    }

    /// The command with that number.
    pub fn from_raw(raw: u16) -> (r: Cmd)
        ensures
            r.spec_raw() == raw,
            r.canonical(),
    {
        if raw == 0x0001 {
            Cmd::GetVersion
        } else if raw == 0x0002 {
            Cmd::GetCapabilities
        } else if raw == 0x0003 {
            Cmd::GetLockStatus
        } else if raw == 0x0D00 {
            Cmd::DfuStart
        } else if raw == 0x0D01 {
            Cmd::DfuWrite
        } else if raw == 0x0D02 {
            Cmd::DfuCrcSync
        } else if raw == 0x0D03 {
            Cmd::DfuCrcRewind
        } else if raw == 0x0D04 {
            Cmd::DfuVerify
        } else if raw == 0x0D05 {
            Cmd::DfuFinish
        } else if raw == 0x0D06 {
            Cmd::DfuReset
        } else {
            Cmd::Other(raw)
        }
    }
}

/// A number belongs to one command.
pub proof fn law_numbers_tell_commands_apart(a: Cmd, b: Cmd)
    requires
        a.canonical(),
        b.canonical(),
        a.spec_raw() == b.spec_raw(),
    ensures
        a == b,
{
}

} // verus!
