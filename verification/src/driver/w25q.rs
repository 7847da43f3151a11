//! W25Q and compatible 25-series SPI NOR flash chips: standard JEDEC commands.

use vstd::prelude::*;
use crate::time::{Duration, Instant, TICK_HZ};

verus! {

pub const CMD_READ: u8 = 0x03;

pub const CMD_PAGE_PROGRAM: u8 = 0x02;

pub const CMD_WRITE_ENABLE: u8 = 0x06;

pub const CMD_READ_STATUS: u8 = 0x05;

pub const CMD_WRITE_STATUS: u8 = 0x01;

pub const CMD_SECTOR_ERASE: u8 = 0x20;

pub const CMD_BLOCK_ERASE_64K: u8 = 0xD8;

pub const CMD_JEDEC_ID: u8 = 0x9F;

pub const PAGE_SIZE: u32 = 256;

pub const SECTOR_SIZE: u32 = 4096;

pub const BLOCK64_SIZE: u32 = 65536;

/// How long the chip may be busy before it counts as stuck. The worst case of a
/// 64 KiB block erase is far below.
pub const BUSY_TIMEOUT_SECS: u64 = 10;

/// Why an operation failed; `SPI` is the error of the bus.
#[derive(Clone, Copy, Debug, PartialEq, Eq)]
pub enum W25qError<SPI> {
    Spi(SPI),
    /// The chip stayed busy.
    Timeout,
    /// The write enable latch was not set.
    WriteProtect,
    /// The chip did not start on a command.
    WriteNotAccepted,
}

impl<SPI> W25qError<SPI> {
    /// The error in words; that of the bus is shown as `spi`.
    pub fn message(&self, spi: &str) -> (r: String)
        ensures
            match *self {
                W25qError::Spi(_) => r@ == "SPI error: "@ + spi@,
                W25qError::Timeout => r@ == "timeout waiting for write-in-progress to clear"@,
                W25qError::WriteProtect => r@ == "write enable latch not set (write protected?)"@,
                W25qError::WriteNotAccepted => r@ == "command not accepted by flash"@,
            },
    {
        match self {
            W25qError::Spi(_) => {
                let mut s = String::from_str("SPI error: ");
                s.append(spi);
                s
            },
            W25qError::Timeout => String::from_str(
                "timeout waiting for write-in-progress to clear",
            ),
            W25qError::WriteProtect => String::from_str(
                "write enable latch not set (write protected?)",
            ),
            W25qError::WriteNotAccepted => String::from_str("command not accepted by flash"),
        }
    }
}

// ---------------------------------------------------------------------------
// Commands
// ---------------------------------------------------------------------------

/// A command with a 24-bit address, high byte first.
pub open spec fn command_bytes(op: u8, addr: u32) -> Seq<u8> {
    seq![
        op,
        (addr / 65536 % 256) as u8,
        (addr / 256 % 256) as u8,
        (addr % 256) as u8,
    ]
}

/// A command with an address.
pub fn command(op: u8, addr: u32) -> (r: Vec<u8>)
    ensures
        r@ == command_bytes(op, addr),
{
    let mut v: Vec<u8> = Vec::new();
    v.push(op);
    v.push((addr / 65536 % 256) as u8);
    v.push((addr / 256 % 256) as u8);
    v.push((addr % 256) as u8);
    assert(v@ =~= command_bytes(op, addr));
    v
}

/// The bytes that program `data` at `addr`.
pub fn page_program(addr: u32, data: &[u8]) -> (r: Vec<u8>)
    requires
        data@.len() <= PAGE_SIZE,
    ensures
        r@ == command_bytes(CMD_PAGE_PROGRAM, addr) + data@,
{
    let mut v = command(CMD_PAGE_PROGRAM, addr);
    let ghost head = v@;
    let mut i: usize = 0;
    assert(v@ =~= head + data@.subrange(0, 0));
    while i < data.len()
        invariant
            i <= data@.len(),
            v@ == head + data@.subrange(0, i as int),
        decreases data@.len() - i,
    {
        v.push(data[i]);
        i = i + 1;
        assert(v@ =~= head + data@.subrange(0, i as int));
    }
    assert(data@.subrange(0, i as int) =~= data@);
    v
}

/// Whether a status says that the chip is busy: bit 0.
pub fn is_busy(status: u8) -> (r: bool)
    ensures
        r == (status % 2 == 1),
{
    assert((status & 0x01 == 0) == (status % 2 == 0)) by (bit_vector);
    status & 0x01 != 0
}

/// Whether a status says that the write enable latch is set: bit 1.
pub fn is_write_enabled(status: u8) -> (r: bool)
    ensures
        r == (status / 2 % 2 == 1),
{
    assert((status & 0x02 == 0) == (status / 2 % 2 == 0)) by (bit_vector);
    status & 0x02 != 0
}

// ---------------------------------------------------------------------------
// One operation
// ---------------------------------------------------------------------------

/// What an operation is at.
#[derive(Clone, Copy, Debug, PartialEq, Eq, Structural)]
pub enum OpPhase {
    /// Send the write enable command.
    Enable,
    /// Read the status: the latch has to be set.
    CheckLatch,
    /// Send the command itself.
    Send,
    /// Read the status: the chip has to be busy.
    CheckBusy,
    /// Read the status until the chip is not busy.
    AwaitIdle,
    Done,
}

/// What the bus is to do.
#[derive(Debug, PartialEq, Eq)]
pub enum BusAction {
    /// Select the chip and write.
    Write(Vec<u8>),
    /// Read the status register.
    ReadStatus,
    /// The operation is over.
    Finish,
}

/// How it went.
#[derive(Clone, Copy, Debug, PartialEq, Eq)]
pub enum BusInput<SPI> {
    Written,
    Status(u8),
    Failed(SPI),
}

/// How an operation goes on.
#[derive(Clone, Copy, Debug, PartialEq, Eq)]
pub enum OpStep<SPI> {
    Continue,
    Finished,
    Failed(W25qError<SPI>),
}

/// An operation that changes the chip's contents: the latch is set, the command
/// sent, and the chip waited for.
pub struct FlashOperation {
    pub command: Vec<u8>,
    /// Whether the chip has to be seen busy after the command, as it is after an
    /// erasure.
    pub verify_busy: bool,
    pub phase: OpPhase,
    /// The chip has to be idle by then.
    pub deadline: Option<Instant>,
}

pub open spec fn busy_deadline(now: Instant) -> Instant {
    Instant { ticks: (now.ticks + BUSY_TIMEOUT_SECS * TICK_HZ) as u64 }
}

/// Phase, deadline and step after an input at time `now`. The wait for the chip
/// starts where it is first asked whether it is idle.
pub open spec fn op_next<SPI>(
    verify_busy: bool,
    phase: OpPhase,
    deadline: Option<Instant>,
    input: BusInput<SPI>,
    now: Instant,
) -> (OpPhase, Option<Instant>, OpStep<SPI>) {
    let start = Some(busy_deadline(now));
    match input {
        BusInput::Failed(e) => (OpPhase::Done, deadline, OpStep::Failed(W25qError::Spi(e))),
        BusInput::Written => match phase {
            OpPhase::Enable => (OpPhase::CheckLatch, deadline, OpStep::Continue),
            OpPhase::Send => if verify_busy {
                (OpPhase::CheckBusy, deadline, OpStep::Continue)
            } else {
                (OpPhase::AwaitIdle, start, OpStep::Continue)
            },
            _ => (phase, deadline, OpStep::Continue),
        },
        BusInput::Status(status) => match phase {
            OpPhase::CheckLatch => if status / 2 % 2 == 1 {
                (OpPhase::Send, deadline, OpStep::Continue)
            } else {
                (OpPhase::Done, deadline, OpStep::Failed(W25qError::WriteProtect))
            },
            OpPhase::CheckBusy => if status % 2 == 1 {
                (OpPhase::AwaitIdle, start, OpStep::Continue)
            } else {
                (OpPhase::Done, deadline, OpStep::Failed(W25qError::WriteNotAccepted))
            },
            OpPhase::AwaitIdle => if status % 2 == 0 {
                (OpPhase::Done, deadline, OpStep::Finished)
            } else if deadline is Some && now.ticks >= deadline->Some_0.ticks {
                (OpPhase::Done, deadline, OpStep::Failed(W25qError::Timeout))
            } else {
                (phase, deadline, OpStep::Continue)
            },
            _ => (phase, deadline, OpStep::Continue),
        },
    }
}

impl FlashOperation {
    /// Clears the block protection bits.
    pub fn clear_block_protection() -> (r: Self)
        ensures
            r.command@ == seq![CMD_WRITE_STATUS, 0x00u8],
            !r.verify_busy,
            r.phase == OpPhase::Enable,
            r.deadline is None,
    {
        let mut command: Vec<u8> = Vec::new();
        command.push(CMD_WRITE_STATUS);
        command.push(0x00);
        assert(command@ =~= seq![CMD_WRITE_STATUS, 0x00u8]);
        FlashOperation { command, verify_busy: false, phase: OpPhase::Enable, deadline: None }
    }

    /// Programs `data`, which lies within one page, at `addr`.
    pub fn program(addr: u32, data: &[u8]) -> (r: Self)
        requires
            data@.len() <= PAGE_SIZE,
        ensures
            r.command@ == command_bytes(CMD_PAGE_PROGRAM, addr) + data@,
            !r.verify_busy,
            r.phase == OpPhase::Enable,
            r.deadline is None,
    {
        FlashOperation {
            command: page_program(addr, data),
            verify_busy: false,
            phase: OpPhase::Enable,
            deadline: None,
        }
    }

    /// Erases a sector or a block at `addr`.
    pub fn erase(unit: EraseUnit, addr: u32) -> (r: Self)
        ensures
            r.command@ == command_bytes(
                match unit {
                    EraseUnit::Sector => CMD_SECTOR_ERASE,
                    EraseUnit::Block64K => CMD_BLOCK_ERASE_64K,
                },
                addr,
            ),
            r.verify_busy,
            r.phase == OpPhase::Enable,
            r.deadline is None,
    {
        let op: u8 = match unit {
            EraseUnit::Sector => CMD_SECTOR_ERASE,
            EraseUnit::Block64K => CMD_BLOCK_ERASE_64K,
        };
        FlashOperation {
            command: command(op, addr),
            verify_busy: true,
            phase: OpPhase::Enable,
            deadline: None,
        }
    }

    /// Only waits until the chip is idle, as a read does first.
    pub fn wait_wip(now: Instant) -> (r: Self)
        requires
            now.ticks + BUSY_TIMEOUT_SECS * TICK_HZ <= u64::MAX,
        ensures
            r.phase == OpPhase::AwaitIdle,
            r.deadline == Some(busy_deadline(now)),
    {
        FlashOperation {
            command: Vec::new(),
            verify_busy: false,
            phase: OpPhase::AwaitIdle,
            deadline: Some(now.after(Duration::from_secs(BUSY_TIMEOUT_SECS))),
        }
    }

    /// What the bus is to do.
    pub fn action(&self) -> (r: BusAction)
        ensures
            match self.phase {
                OpPhase::Enable => r matches BusAction::Write(v) && v@ == seq![CMD_WRITE_ENABLE],
                OpPhase::Send => r matches BusAction::Write(v) && v@ == self.command@,
                OpPhase::CheckLatch | OpPhase::CheckBusy | OpPhase::AwaitIdle => r
                    == BusAction::ReadStatus,
                OpPhase::Done => r == BusAction::Finish,
            },
    {
        match self.phase {
            OpPhase::Enable => {
                let mut v: Vec<u8> = Vec::new();
                v.push(CMD_WRITE_ENABLE);
                assert(v@ =~= seq![CMD_WRITE_ENABLE]);
                BusAction::Write(v)
            },
            OpPhase::Send => BusAction::Write(vstd::slice::slice_to_vec(self.command.as_slice())),
            OpPhase::CheckLatch => BusAction::ReadStatus,
            OpPhase::CheckBusy => BusAction::ReadStatus,
            OpPhase::AwaitIdle => BusAction::ReadStatus,
            OpPhase::Done => BusAction::Finish,
        }
    }

    /// Takes in how it went.
    pub fn advance<SPI>(&mut self, input: BusInput<SPI>, now: Instant) -> (r: OpStep<SPI>)
        requires
            now.ticks + BUSY_TIMEOUT_SECS * TICK_HZ <= u64::MAX,
        ensures
            final(self).command == old(self).command,
            final(self).verify_busy == old(self).verify_busy,
            (final(self).phase, final(self).deadline, r) == op_next(
                old(self).verify_busy,
                old(self).phase,
                old(self).deadline,
                input,
                now,
            ),
    {
        match input {
            BusInput::Failed(e) => {
                self.phase = OpPhase::Done;
                OpStep::Failed(W25qError::Spi(e))
            },
            BusInput::Written => {
                match self.phase {
                    OpPhase::Enable => {
                        self.phase = OpPhase::CheckLatch;
                    },
                    OpPhase::Send => {
                        if self.verify_busy {
                            self.phase = OpPhase::CheckBusy;
                        } else {
                            self.phase = OpPhase::AwaitIdle;
                            self.deadline = Some(
                                now.after(Duration::from_secs(BUSY_TIMEOUT_SECS)),
                            );
                        }
                    },
                    _ => {},
                }
                OpStep::Continue
            },
            BusInput::Status(status) => match self.phase {
                OpPhase::CheckLatch => {
                    if is_write_enabled(status) {
                        self.phase = OpPhase::Send;
                        OpStep::Continue
                    } else {
                        self.phase = OpPhase::Done;
                        OpStep::Failed(W25qError::WriteProtect)
                    }
                },
                OpPhase::CheckBusy => {
                    if is_busy(status) {
                        self.phase = OpPhase::AwaitIdle;
                        self.deadline = Some(now.after(Duration::from_secs(BUSY_TIMEOUT_SECS)));
                        OpStep::Continue
                    } else {
                        self.phase = OpPhase::Done;
                        OpStep::Failed(W25qError::WriteNotAccepted)
                    }
                },
                OpPhase::AwaitIdle => {
                    if !is_busy(status) {
                        self.phase = OpPhase::Done;
                        return OpStep::Finished;
                    }
                    let late = match self.deadline {
                        Some(d) => now.ticks >= d.ticks,
                        None => false,
                    };
                    if late {
                        self.phase = OpPhase::Done;
                        OpStep::Failed(W25qError::Timeout)
                    } else {
                        OpStep::Continue
                    }
                },
                _ => OpStep::Continue,
            },
        }
    }
}

// ---------------------------------------------------------------------------
// Erasing and writing ranges
// ---------------------------------------------------------------------------

#[derive(Clone, Copy, Debug, PartialEq, Eq, Structural)]
pub enum EraseUnit {
    Sector,
    Block64K,
}

impl EraseUnit {
    pub open spec fn spec_size(self) -> u32 {
        match self {
            EraseUnit::Sector => SECTOR_SIZE,
            EraseUnit::Block64K => BLOCK64_SIZE,
        }
    }

    pub fn size(self) -> (r: u32)
        ensures
            r == self.spec_size(),
    {
        match self {
            EraseUnit::Sector => SECTOR_SIZE,
            EraseUnit::Block64K => BLOCK64_SIZE,
        }
    }
}

/// The unit that a range is erased with at its start: a block where a whole one
/// starts there, else a sector.
pub open spec fn unit_at(from: int, to: int) -> EraseUnit {
    if to - from >= BLOCK64_SIZE && from % BLOCK64_SIZE as int == 0 {
        EraseUnit::Block64K
    } else {
        EraseUnit::Sector
    }
}

/// The next unit to erase of a range, or `None` where nothing is left.
pub fn next_erase(from: u32, to: u32) -> (r: Option<EraseUnit>)
    ensures
        r == if from < to {
            Some(unit_at(from as int, to as int))
        } else {
            None
        },
{
    if from >= to {
        return None;
    }
    let remaining: u32 = to - from;
    if remaining >= BLOCK64_SIZE && from % BLOCK64_SIZE == 0 {
        Some(EraseUnit::Block64K)
    } else {
        Some(EraseUnit::Sector)
    }
}

/// Bytes of the next page program for `len` bytes at `offset`: up to the end of
/// the page.
pub open spec fn program_len(offset: u32, len: nat) -> nat {
    let room = (PAGE_SIZE - offset % PAGE_SIZE) as nat;
    if len < room {
        len
    } else {
        room
    }
}

pub fn next_program(offset: u32, len: usize) -> (r: usize)
    ensures
        r == program_len(offset, len as nat),
{
    let room: usize = (PAGE_SIZE - offset % PAGE_SIZE) as usize;
    if len < room {
        len
    } else {
        room
    }
}

// ---------------------------------------------------------------------------
// Laws
// ---------------------------------------------------------------------------

/// The units that a range is erased with, in their order.
pub open spec fn erasures(from: int, to: int) -> Seq<(int, int)>
    decreases
            (if from < to {
                to - from
            } else {
                0
            }),
{
    if from >= to {
        Seq::empty()
    } else {
        let size = unit_at(from, to).spec_size() as int;
        seq![(from, size)] + erasures(from + size, to)
    }
}

/// A range of whole sectors is erased exactly: the units lie one after the other
/// from its start to its end.
pub proof fn law_a_range_is_erased_exactly(from: int, to: int)
    requires
        0 <= from <= to,
        (to - from) % SECTOR_SIZE as int == 0,
    ensures
        from == to ==> erasures(from, to).len() == 0,
        from < to ==> {
            let all = erasures(from, to);
            &&& all.len() > 0
            &&& all[0].0 == from
            &&& all.last().0 + all.last().1 == to
            &&& forall|i: int|
                0 <= i < all.len() - 1 ==> (#[trigger] all[i + 1]).0 == all[i].0 + all[i].1
        },
    decreases to - from,
{
    if from < to {
        let size = unit_at(from, to).spec_size() as int;
        let rest = erasures(from + size, to);
        let all = erasures(from, to);
        law_a_range_is_erased_exactly(from + size, to);
        if from + size < to {
            assert(all.last() == rest.last());
            assert forall|i: int| 0 <= i < all.len() - 1 implies (#[trigger] all[i + 1]).0
                == all[i].0 + all[i].1 by {
                if i > 0 {
                    assert(all[i] == rest[i - 1]);
                    assert(all[i + 1] == rest[(i - 1) + 1]);
                }
            }
        }
    }
}

/// A page program never crosses the end of a page, and takes at least one byte of
/// what is left.
pub proof fn law_a_program_stays_within_its_page(offset: u32, len: nat)
    requires
        len > 0,
    ensures
        0 < program_len(offset, len) <= len,
        offset % PAGE_SIZE + program_len(offset, len) <= PAGE_SIZE,
{
}

/// The page programs that some bytes are written with, in their order: where each starts
/// and how many bytes it takes.
pub open spec fn programs(offset: u32, len: nat) -> Seq<(u32, nat)>
    decreases len,
{
    if len == 0 {
        Seq::empty()
    } else {
        let n = program_len(offset, len);
        seq![(offset, n)] + programs((offset + n) as u32, (len - n) as nat)
    }
}

/// A write reaches every byte exactly once: its page programs lie one after the other from
/// its start to its end, and none of them crosses the end of a page.
pub proof fn law_a_write_covers_its_bytes(offset: u32, len: nat)
    requires
        offset + len <= u32::MAX,
    ensures
        len == 0 ==> programs(offset, len).len() == 0,
        len > 0 ==> {
            let all = programs(offset, len);
            &&& all.len() > 0
            &&& all[0].0 == offset
            &&& all.last().0 + all.last().1 == offset + len
            &&& forall|i: int|
                0 <= i < all.len() - 1 ==> (#[trigger] all[i + 1]).0 == all[i].0 + all[i].1
            &&& forall|i: int|
                0 <= i < all.len() ==> (#[trigger] all[i]).1 > 0 && all[i].0 % PAGE_SIZE + all[i].1
                    <= PAGE_SIZE
        },
    decreases len,
{
    if len > 0 {
        let n = program_len(offset, len);
        let next = (offset + n) as u32;
        let rest = programs(next, (len - n) as nat);
        let all = programs(offset, len);
        assert(all == seq![(offset, n)] + rest);
        law_a_program_stays_within_its_page(offset, len);
        law_a_write_covers_its_bytes(next, (len - n) as nat);
        if n < len {
            assert(all.last() == rest.last());
            assert forall|i: int| 0 <= i < all.len() - 1 implies (#[trigger] all[i + 1]).0
                == all[i].0 + all[i].1 by {
                if i > 0 {
                    assert(all[i] == rest[i - 1]);
                    assert(all[i + 1] == rest[(i - 1) + 1]);
                }
            }
        }
        assert forall|i: int| 0 <= i < all.len() implies (#[trigger] all[i]).1 > 0 && all[i].0
            % PAGE_SIZE + all[i].1 <= PAGE_SIZE by {
            if i > 0 {
                assert(all[i] == rest[i - 1]);
            }
        }
    }
}

/// The contents are changed only after the latch was seen set: the command is sent
/// in no other way.
pub proof fn law_a_command_needs_the_latch<SPI>(
    verify_busy: bool,
    phase: OpPhase,
    deadline: Option<Instant>,
    input: BusInput<SPI>,
    now: Instant,
)
    requires
        phase != OpPhase::Send,
        op_next(verify_busy, phase, deadline, input, now).0 == OpPhase::Send,
    ensures
        phase == OpPhase::CheckLatch,
        input matches BusInput::Status(status) && status / 2 % 2 == 1,
{
}

/// A command starts with its code, and its address can be read off the three bytes behind it.
pub proof fn law_a_command_carries_its_address(op: u8, addr: u32)
    ensures
        command_bytes(op, addr).len() == 4,
        command_bytes(op, addr)[0] == op,
        addr < 0x100_0000 ==> command_bytes(op, addr)[1] * 65536 + command_bytes(op, addr)[2] * 256
            + command_bytes(op, addr)[3] == addr,
{
}

/// How an operation goes: the latch is enabled and has to be seen set, the command is sent and,
/// where that is asked for, the chip has to be seen busy; the operation is over when the chip is
/// idle, and fails where it is not within ten seconds.
pub proof fn law_an_operation_goes_step_by_step<SPI>(
    verify_busy: bool,
    deadline: Option<Instant>,
    status: u8,
    now: Instant,
)
    requires
        now.ticks + BUSY_TIMEOUT_SECS * TICK_HZ <= u64::MAX,
    ensures
        op_next::<SPI>(verify_busy, OpPhase::Enable, deadline, BusInput::Written, now).0
            is CheckLatch,
        ({
            let (phase, until, step) = op_next::<SPI>(
                verify_busy,
                OpPhase::CheckLatch,
                deadline,
                BusInput::Status(status),
                now,
            );
            &&& status / 2 % 2 == 1 ==> phase is Send && step is Continue
            &&& status / 2 % 2 == 0 ==> phase is Done && step == OpStep::<SPI>::Failed(
                W25qError::WriteProtect,
            )
        }),
        ({
            let (phase, until, step) = op_next::<SPI>(
                verify_busy,
                OpPhase::Send,
                deadline,
                BusInput::Written,
                now,
            );
            &&& step is Continue
            &&& verify_busy ==> phase is CheckBusy
            &&& !verify_busy ==> phase is AwaitIdle && (until matches Some(d) && d.ticks
                == now.ticks + 10_000_000)
        }),
        ({
            let (phase, until, step) = op_next::<SPI>(
                verify_busy,
                OpPhase::CheckBusy,
                deadline,
                BusInput::Status(status),
                now,
            );
            &&& status % 2 == 1 ==> phase is AwaitIdle && step is Continue && (until matches Some(d)
                && d.ticks == now.ticks + 10_000_000)
            &&& status % 2 == 0 ==> phase is Done && step == OpStep::<SPI>::Failed(
                W25qError::WriteNotAccepted,
            )
        }),
        ({
            let (phase, until, step) = op_next::<SPI>(
                verify_busy,
                OpPhase::AwaitIdle,
                deadline,
                BusInput::Status(status),
                now,
            );
            &&& step is Finished <==> status % 2 == 0
            &&& status % 2 == 1 ==> (phase is Done <==> deadline is Some && deadline->0.ticks
                <= now.ticks)
            &&& status % 2 == 1 && phase is Done ==> step == OpStep::<SPI>::Failed(
                W25qError::Timeout,
            )
            &&& until == deadline
        }),
{
}

/// A failure of the bus ends an operation in any phase, with that failure; nothing but the idle
/// chip finishes one.
pub proof fn law_a_bus_failure_ends_an_operation<SPI>(
    verify_busy: bool,
    phase: OpPhase,
    deadline: Option<Instant>,
    input: BusInput<SPI>,
    e: SPI,
    now: Instant,
)
    ensures
        op_next(verify_busy, phase, deadline, BusInput::Failed(e), now).0 is Done,
        op_next(verify_busy, phase, deadline, BusInput::Failed(e), now).2 == OpStep::Failed(
            W25qError::Spi(e),
        ),
        op_next(verify_busy, phase, deadline, input, now).2 is Finished ==> phase is AwaitIdle && (
        input matches BusInput::Status(status) && status % 2 == 0),
{
}

/// A block of 64 KiB is erased at once where a whole one starts and is wanted; a sector of 4 KiB
/// otherwise. Each starts at a multiple of its size, and none reaches beyond a range of whole
/// sectors.
pub proof fn law_an_erasure_starts_at_a_multiple_of_its_size(from: int, to: int)
    requires
        0 <= from < to,
        from % 4096 == 0,
        to % 4096 == 0,
    ensures
        from % unit_at(from, to).spec_size() as int == 0,
        from + unit_at(from, to).spec_size() <= to,
        unit_at(from, to).spec_size() == (if from % 65536 == 0 && from + 65536 <= to {
            65536int
        } else {
            4096int
        }),
{
}

/// A page program takes all that is left, or goes to the very end of its page.
pub proof fn law_a_program_fills_its_page(offset: u32, len: nat)
    ensures
        program_len(offset, len) == len || (offset + program_len(offset, len)) % 256 == 0,
        program_len(offset, len) <= 256,
{
}

/// The busy flag is the lowest bit of the status and the write latch the one above it: no other
/// bit decides either.
pub proof fn law_the_status_flags_are_its_two_lowest_bits(
    status: u8,
    rest: int,
    busy: bool,
    enabled: bool,
)
    requires
        is_busy.ensures((status,), busy),
        is_write_enabled.ensures((status,), enabled),
    ensures
        status == 4 * rest + 0 ==> !busy && !enabled,
        status == 4 * rest + 1 ==> busy && !enabled,
        status == 4 * rest + 2 ==> !busy && enabled,
        status == 4 * rest + 3 ==> busy && enabled,
{
}

/// A step writes the enabling command first and its own command once the latch is known; all
/// others read the status, and nothing is done once it is over.
pub proof fn law_each_phase_has_its_bus_action(op: FlashOperation, r: BusAction)
    requires
        FlashOperation::action.ensures((&op,), r),
    ensures
        r is Write <==> op.phase is Enable || op.phase is Send,
        r is Finish <==> op.phase is Done,
        r matches BusAction::Write(v) ==> (op.phase is Enable ==> v@.len() == 1 && v@[0] == 0x06)
            && (op.phase is Send ==> v@ == op.command@),
{
}

} // verus!
