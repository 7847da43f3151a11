//! Firmware download over the host protocol.
//!
//! The host streams the image in chunks; a running CRC-32 over them is compared
//! with the host's from time to time and at the end. After a mismatch the host
//! rewinds it to its last good checkpoint and sends again from there.

use vstd::prelude::*;
use crate::bounded::{DfuBlock, BLOCK_SIZE_DFU};
use crate::crc32::{crc_run, Crc32};
use crate::dfu::{DfuCmd, DfuTarget};
use crate::protocol::command::Cmd;
use crate::protocol::dfu::{
    offset_and_data, one_number, two_numbers, DfuCrcRewindRequest, DfuCrcSyncRequest,
    DfuVerifyRequest, DfuWriteRequest,
};
use crate::protocol::frame::RynkError;
use crate::types::DfuStatus;

verus! {

/// CRC tracking of a download.
#[derive(Clone, Copy, Debug, PartialEq, Eq, Structural)]
pub struct DfuRynkState {
    pub running_crc: Crc32,
    pub current_offset: u32,
}

/// What a command makes known: commands for the flash, in their order, and then a
/// status.
#[derive(Debug)]
pub struct DfuEvents {
    pub cmds: Vec<DfuCmd>,
    pub status: Option<DfuStatus>,
}

/// Blocks that `len` bytes are cut into.
pub open spec fn block_count(len: nat) -> nat {
    ((len + BLOCK_SIZE_DFU - 1) / BLOCK_SIZE_DFU as int) as nat
}

/// The bytes of block `i`.
pub open spec fn block_of(data: Seq<u8>, i: int) -> Seq<u8> {
    let start = i * BLOCK_SIZE_DFU;
    data.subrange(
        start,
        if start + BLOCK_SIZE_DFU < data.len() {
            start + BLOCK_SIZE_DFU
        } else {
            data.len() as int
        },
    )
}

/// Whether `cmds` are the writes of `data` at `offset`, block by block.
pub open spec fn are_writes(cmds: Seq<DfuCmd>, offset: u32, data: Seq<u8>, n: nat) -> bool {
    &&& cmds.len() == n
    &&& forall|i: int|
        0 <= i < n ==> match #[trigger] cmds[i] {
            DfuCmd::Write(target, at, block) => target == DfuTarget::Central && at == offset + i
                * BLOCK_SIZE_DFU && block@ == block_of(data, i),
            _ => false,
        }
}

proof fn lemma_block_bounds(len: nat, i: nat)
    ensures
        i < block_count(len) <==> i * 512 < len,
{
    assert(i < (len + 511) / 512 <==> i * 512 < len) by (nonlinear_arith)
        requires
            i >= 0,
            len >= 0,
    ;
}

impl DfuRynkState {
    pub fn new() -> (r: Self)
        ensures
            r.running_crc.register() == 0xFFFF_FFFF,
            r.current_offset == 0,
    {
        DfuRynkState { running_crc: Crc32::new(), current_offset: 0 }
    }

    pub fn reset(&mut self)
        ensures
            final(self).running_crc.register() == 0xFFFF_FFFF,
            final(self).current_offset == 0,
    {
        self.running_crc = Crc32::new();
        self.current_offset = 0;
    }

    /// Starts a download: the CRC starts anew.
    pub fn handle_start(&mut self) -> (r: DfuEvents)
        ensures
            final(self).running_crc.register() == 0xFFFF_FFFF,
            final(self).current_offset == 0,
            r.cmds@ == seq![DfuCmd::Start(DfuTarget::Central)],
            r.status == Some(DfuStatus::Started),
    {
        self.reset();
        let mut cmds: Vec<DfuCmd> = Vec::new();
        cmds.push(DfuCmd::Start(DfuTarget::Central));
        assert(cmds@ =~= seq![DfuCmd::Start(DfuTarget::Central)]);
        DfuEvents { cmds, status: Some(DfuStatus::Started) }
    }

    /// Takes in a chunk of firmware. It is refused, and changes nothing, once a
    /// write of this download has failed.
    pub fn handle_write(&mut self, req: &DfuWriteRequest, write_failed: bool) -> (r: Result<
        DfuEvents,
        RynkError,
    >)
        requires
            req.offset + req.data@.len() <= u32::MAX,
        ensures
            match r {
                Ok(events) => {
                    &&& !write_failed
                    &&& final(self).running_crc.register() == crc_run(
                        old(self).running_crc.register(),
                        req.data@,
                    )
                    &&& final(self).current_offset == req.offset + req.data@.len()
                    &&& are_writes(
                        events.cmds@,
                        req.offset,
                        req.data@,
                        block_count(req.data@.len()),
                    )
                    &&& events.status == Some(DfuStatus::Downloading)
                },
                Err(e) => write_failed && e == RynkError::Internal && *final(self) == *old(self),
            },
    {
        if write_failed {
            return Err(RynkError::Internal);
        }
        let data = req.data.as_slice();
        self.running_crc.update(data);
        let n: usize = data.len();
        self.current_offset = req.offset + n as u32;
        let mut cmds: Vec<DfuCmd> = Vec::new();
        let mut start: usize = 0;
        let ghost mut i: nat = 0;
        while start < n
            invariant
                data@ == req.data@,
                n == req.data@.len(),
                req.offset + n <= u32::MAX,
                start == if i * 512 < n {
                    (i * 512) as int
                } else {
                    n as int
                },
                start == n ==> i == block_count(n as nat),
                i <= block_count(n as nat),
                are_writes(cmds@, req.offset, req.data@, i),
            decreases n - start,
        {
            let end: usize = if n - start > BLOCK_SIZE_DFU {
                start + BLOCK_SIZE_DFU
            } else {
                n
            };
            let part = vstd::slice::slice_subrange(data, start, end);
            let at: u32 = req.offset + start as u32;
            proof {
                lemma_block_bounds(n as nat, i);
                lemma_block_bounds(n as nat, i + 1);
                assert(part@ =~= block_of(req.data@, i as int));
            }
            match DfuBlock::from_slice(part) {
                Ok(block) => {
                    let ghost before = cmds@;
                    cmds.push(DfuCmd::Write(DfuTarget::Central, at, block));
                    assert(are_writes(cmds@, req.offset, req.data@, i + 1)) by {
                        assert forall|j: int| 0 <= j < i + 1 implies match #[trigger] cmds@[j] {
                            DfuCmd::Write(target, at, block) => target == DfuTarget::Central && at
                                == req.offset + j * BLOCK_SIZE_DFU && block@ == block_of(
                                req.data@,
                                j,
                            ),
                            _ => false,
                        } by {
                            if j < i {
                                assert(cmds@[j] == before[j]);
                            }
                        }
                    }
                },
                Err(()) => {
                    assert(false);
                },
            }
            proof {
                i = i + 1;
            }
            start = end;
        }
        proof {
            lemma_block_bounds(n as nat, i);
        }
        Ok(DfuEvents { cmds, status: Some(DfuStatus::Downloading) })
    }

    /// Compares the CRC of everything so far with the host's. More data may
    /// follow.
    pub fn handle_crc_sync(&self, req: DfuCrcSyncRequest) -> (r: Result<(), RynkError>)
        ensures
            r == if self.running_crc.value() == req.expected_crc {
                Ok(())
            } else {
                Err(RynkError::Internal)
            },
    {
        if self.running_crc.finalize() == req.expected_crc {
            Ok(())
        } else {
            Err(RynkError::Internal)
        }
    }

    /// Rewinds to a checkpoint of the host's.
    pub fn handle_crc_rewind(&mut self, req: DfuCrcRewindRequest)
        ensures
            final(self).running_crc.value() == req.crc,
            final(self).current_offset == req.offset,
    {
        self.running_crc = Crc32::from_state(req.crc);
        self.current_offset = req.offset;
    }

    /// Compares the CRC of the whole image with the host's.
    pub fn handle_verify(&self, req: DfuVerifyRequest) -> (r: Result<(), RynkError>)
        ensures
            r == if self.running_crc.value() == req.crc32 {
                Ok(())
            } else {
                Err(RynkError::Internal)
            },
    {
        if self.running_crc.finalize() != req.crc32 {
            return Err(RynkError::Internal);
        }
        Ok(())
    }

    /// Carries out a DFU command.
    ///
    /// A payload that does not decode gives `Internal`, another command
    /// `UnknownCmd`; neither changes anything.
    pub fn dispatch_dfu_cmd(&mut self, cmd: Cmd, payload: &[u8], write_failed: bool) -> (r: (
        Result<(), RynkError>,
        DfuEvents,
    ))
        requires
            cmd == Cmd::DfuWrite ==> (offset_and_data(payload@) matches Some((offset, data))
                ==> offset + data.len() <= u32::MAX),
        ensures
            dispatched(*old(self), cmd, payload@, write_failed, *final(self), r.0, r.1),
    {
        let none = DfuEvents { cmds: Vec::new(), status: None };
        match cmd {
            Cmd::DfuStart => (Ok(()), self.handle_start()),
            Cmd::DfuWrite => match DfuWriteRequest::decode(payload) {
                None => (Err(RynkError::Internal), none),
                Some(req) => match self.handle_write(&req, write_failed) {
                    Ok(events) => (Ok(()), events),
                    Err(e) => (Err(e), none),
                },
            },
            Cmd::DfuCrcSync => match DfuCrcSyncRequest::decode(payload) {
                None => (Err(RynkError::Internal), none),
                Some(req) => (self.handle_crc_sync(req), none),
            },
            Cmd::DfuCrcRewind => match DfuCrcRewindRequest::decode(payload) {
                None => (Err(RynkError::Internal), none),
                Some(req) => {
                    self.handle_crc_rewind(req);
                    (Ok(()), none)
                },
            },
            Cmd::DfuVerify => match DfuVerifyRequest::decode(payload) {
                None => (Err(RynkError::Internal), none),
                Some(req) => (self.handle_verify(req), none),
            },
            Cmd::DfuFinish => {
                let mut cmds: Vec<DfuCmd> = Vec::new();
                cmds.push(DfuCmd::Finish(DfuTarget::Central));
                assert(cmds@ =~= seq![DfuCmd::Finish(DfuTarget::Central)]);
                (Ok(()), DfuEvents { cmds, status: Some(DfuStatus::Finished) })
            },
            Cmd::DfuReset => {
                let mut cmds: Vec<DfuCmd> = Vec::new();
                cmds.push(DfuCmd::SystemReset(DfuTarget::Central));
                assert(cmds@ =~= seq![DfuCmd::SystemReset(DfuTarget::Central)]);
                (Ok(()), DfuEvents { cmds, status: None })
            },
            _ => (Err(RynkError::UnknownCmd), none),
        }
    }
}

/// Nothing to make known.
pub open spec fn no_events(e: DfuEvents) -> bool {
    e.cmds@.len() == 0 && e.status is None
}

/// The outcome of a comparison of checksums.
pub open spec fn compared(actual: u32, expected: u32) -> Result<(), RynkError> {
    if actual == expected {
        Ok(())
    } else {
        Err(RynkError::Internal)
    }
}

/// What a DFU command does to the state, and what comes of it.
pub open spec fn dispatched(
    s: DfuRynkState,
    cmd: Cmd,
    payload: Seq<u8>,
    write_failed: bool,
    t: DfuRynkState,
    r: Result<(), RynkError>,
    e: DfuEvents,
) -> bool {
    let refused = Err::<(), RynkError>(RynkError::Internal);
    match cmd {
        Cmd::DfuStart => {
            &&& r == Ok::<(), RynkError>(())
            &&& t.running_crc.register() == 0xFFFF_FFFF
            &&& t.current_offset == 0
            &&& e.cmds@ == seq![DfuCmd::Start(DfuTarget::Central)]
            &&& e.status == Some(DfuStatus::Started)
        },
        Cmd::DfuWrite => match offset_and_data(payload) {
            Some((offset, data)) => if write_failed {
                t == s && r == refused && no_events(e)
            } else {
                &&& r == Ok::<(), RynkError>(())
                &&& t.running_crc.register() == crc_run(s.running_crc.register(), data)
                &&& t.current_offset == offset + data.len()
                &&& are_writes(e.cmds@, offset, data, block_count(data.len()))
                &&& e.status == Some(DfuStatus::Downloading)
            },
            None => t == s && r == refused && no_events(e),
        },
        Cmd::DfuCrcSync => t == s && no_events(e) && r == match one_number(payload) {
            Some(crc) => compared(s.running_crc.value(), crc),
            None => refused,
        },
        Cmd::DfuCrcRewind => no_events(e) && match two_numbers(payload) {
            Some((offset, crc)) => r == Ok::<(), RynkError>(()) && t.running_crc.value() == crc
                && t.current_offset == offset,
            None => t == s && r == refused,
        },
        Cmd::DfuVerify => t == s && no_events(e) && r == match one_number(payload) {
            Some(crc) => compared(s.running_crc.value(), crc),
            None => refused,
        },
        Cmd::DfuFinish => {
            &&& t == s
            &&& r == Ok::<(), RynkError>(())
            &&& e.cmds@ == seq![DfuCmd::Finish(DfuTarget::Central)]
            &&& e.status == Some(DfuStatus::Finished)
        },
        Cmd::DfuReset => {
            &&& t == s
            &&& r == Ok::<(), RynkError>(())
            &&& e.cmds@ == seq![DfuCmd::SystemReset(DfuTarget::Central)]
            &&& e.status is None
        },
        _ => t == s && r == Err::<(), RynkError>(RynkError::UnknownCmd) && no_events(e),
    }
}

// ---------------------------------------------------------------------------
// Laws
// ---------------------------------------------------------------------------

/// The bytes of the blocks up to block `n`, one after the other.
pub open spec fn joined_blocks(data: Seq<u8>, n: nat) -> Seq<u8>
    decreases n,
{
    if n == 0 {
        Seq::empty()
    } else {
        joined_blocks(data, (n - 1) as nat) + block_of(data, n - 1)
    }
}

/// The flash gets exactly the bytes that entered the CRC: the blocks of a chunk,
/// put together again, are the chunk.
pub proof fn law_blocks_are_the_chunk(data: Seq<u8>)
    ensures
        joined_blocks(data, block_count(data.len())) == data,
{
    lemma_joined_blocks(data, block_count(data.len()));
    lemma_block_bounds(data.len(), block_count(data.len()));
    let n = block_count(data.len()) as int;
    let end = if n * 512 < data.len() {
        n * 512
    } else {
        data.len() as int
    };
    assert(data.subrange(0, end) =~= data);
}

proof fn lemma_joined_blocks(data: Seq<u8>, n: nat)
    requires
        n <= block_count(data.len()),
    ensures
        joined_blocks(data, n) == data.subrange(
            0,
            if n * 512 < data.len() {
                (n * 512) as int
            } else {
                data.len() as int
            },
        ),
    decreases n,
{
    if n == 0 {
        assert(data.subrange(0, 0) =~= Seq::<u8>::empty());
    } else {
        let m = (n - 1) as nat;
        lemma_joined_blocks(data, m);
        lemma_block_bounds(data.len(), m);
        let end = if n * 512 < data.len() {
            (n * 512) as int
        } else {
            data.len() as int
        };
        assert(data.subrange(0, (m * 512) as int) + block_of(data, m as int) =~= data.subrange(0, end));
    }
}

/// After a mismatch, a rewind to a checkpoint and the data from there on give the
/// CRC that the data would have given without the mismatch: `good` is the state
/// at the checkpoint, `rewound` the state after the rewind.
pub proof fn law_rewind_undoes_what_came_after_the_checkpoint(
    good: DfuRynkState,
    rewound: DfuRynkState,
    data: Seq<u8>,
)
    requires
        rewound.running_crc.value() == good.running_crc.value(),
    ensures
        crc_run(rewound.running_crc.register(), data) == crc_run(
            good.running_crc.register(),
            data,
        ),
{
    crate::crc32::law_resume_is_continuation(good.running_crc, rewound.running_crc, data);
}

/// A chunk is cut into blocks of 512 bytes: block `i` holds its bytes from 512 times `i` on, as
/// many as are left of them, and none is empty.
pub proof fn law_blocks_are_512_bytes(data: Seq<u8>, i: int, j: int)
    requires
        0 <= i < block_count(data.len()),
    ensures
        block_of(data, i).len() == (if 512 * (i + 1) <= data.len() {
            512
        } else {
            data.len() - 512 * i
        }),
        0 < block_of(data, i).len() <= 512,
        0 <= j < block_of(data, i).len() ==> block_of(data, i)[j] == data[512 * i + j],
        512 * block_count(data.len()) >= data.len(),
{
}

/// A command that is refused changes nothing and makes nothing known.
pub proof fn law_a_refused_command_changes_nothing(
    s: DfuRynkState,
    cmd: Cmd,
    payload: Seq<u8>,
    write_failed: bool,
    t: DfuRynkState,
    r: Result<(), RynkError>,
    e: DfuEvents,
)
    requires
        dispatched(s, cmd, payload, write_failed, t, r, e),
        r is Err,
    ensures
        t == s,
        e.cmds@.len() == 0,
        e.status is None,
        !(cmd is DfuStart || cmd is DfuFinish || cmd is DfuReset),
        cmd is DfuWrite ==> write_failed || offset_and_data(payload) is None,
        cmd is DfuCrcRewind ==> two_numbers(payload) is None,
        r->Err_0 is UnknownCmd <==> !(cmd is DfuWrite || cmd is DfuCrcSync || cmd is DfuCrcRewind
            || cmd is DfuVerify),
{
}

/// A comparison succeeds exactly where the host's checksum is the CRC-32 of everything taken in
/// so far, and changes nothing either way.
pub proof fn law_a_comparison_tells_the_same_checksum(
    s: DfuRynkState,
    cmd: Cmd,
    payload: Seq<u8>,
    write_failed: bool,
    t: DfuRynkState,
    r: Result<(), RynkError>,
    e: DfuEvents,
)
    requires
        dispatched(s, cmd, payload, write_failed, t, r, e),
        cmd is DfuCrcSync || cmd is DfuVerify,
    ensures
        t == s,
        r is Ok <==> one_number(payload) == Some(s.running_crc.value()),
        e.cmds@.len() == 0 && e.status is None,
{
}

/// A chunk of the image goes to the central's flash where it belongs, block by block, and into
/// the CRC-32; the next chunk is expected behind it.
pub proof fn law_a_chunk_goes_where_it_belongs(
    s: DfuRynkState,
    payload: Seq<u8>,
    t: DfuRynkState,
    e: DfuEvents,
    offset: u32,
    data: Seq<u8>,
    i: int,
)
    requires
        dispatched(s, Cmd::DfuWrite, payload, false, t, Ok::<(), RynkError>(()), e),
        offset_and_data(payload) == Some((offset, data)),
        0 <= i < block_count(data.len()),
    ensures
        e.cmds@.len() == block_count(data.len()),
        e.cmds@[i] matches DfuCmd::Write(target, at, block) && target is Central && at == offset
            + 512 * i && block@ == block_of(data, i),
        t.running_crc.register() == crc_run(s.running_crc.register(), data),
        t.current_offset == offset + data.len(),
{
}

/// The end of a download and a reset are for the central, and leave the CRC-32 as it is; a start
/// sets it back to that of nothing.
pub proof fn law_a_download_starts_and_ends_on_command(
    s: DfuRynkState,
    cmd: Cmd,
    payload: Seq<u8>,
    write_failed: bool,
    t: DfuRynkState,
    r: Result<(), RynkError>,
    e: DfuEvents,
)
    requires
        dispatched(s, cmd, payload, write_failed, t, r, e),
    ensures
        cmd is DfuStart ==> r is Ok && t.running_crc.value() == !0xFFFF_FFFFu32 && t.current_offset
            == 0 && e.cmds@.len() == 1 && e.cmds@[0] == DfuCmd::Start(DfuTarget::Central)
            && e.status == Some(DfuStatus::Started),
        cmd is DfuFinish ==> r is Ok && t == s && e.cmds@.len() == 1 && e.cmds@[0]
            == DfuCmd::Finish(DfuTarget::Central) && e.status == Some(DfuStatus::Finished),
        cmd is DfuReset ==> r is Ok && t == s && e.cmds@.len() == 1 && e.cmds@[0]
            == DfuCmd::SystemReset(DfuTarget::Central) && e.status is None,
        cmd is DfuCrcRewind && two_numbers(payload) is Some ==> r is Ok && t.current_offset
            == two_numbers(payload)->Some_0.0 && t.running_crc.value() == two_numbers(payload)->Some_0.1
            && e.cmds@.len() == 0 && e.status is None,
{
}

} // verus!
