//! Firmware updates of a peripheral over the split link, seen from the central.
//!
//! [`FirmwareUpdate`] sends a whole image. It is a state machine: the link asks
//! it for its next [`LinkAction`], carries that out, and hands the outcome back
//! as a [`LinkInput`].

use vstd::prelude::*;
use crate::crc32::{crc32, crc_of, Crc32};
use crate::split::{SplitMessage, SPLIT_CHUNK_SIZE};
use crate::types::DfuStatus;

verus! {

/// Defines how the central decides whether to flash a peripheral.
#[derive(Clone, Copy, Debug, PartialEq, Eq, Structural)]
pub enum UpdatePolicy {
    /// Compare the firmware hash: only flash when it differs.
    MatchHash,
    /// Always flash the firmware regardless of the current version.
    Force,
}

/// Times a chunk is sent before it counts as lost.
pub const MAX_RETRIES: u32 = 3;

/// Times a whole transfer is tried.
pub const MAX_ATTEMPTS: u32 = 3;

/// What the link is to do next.
#[derive(Clone, Debug, PartialEq, Eq)]
pub enum LinkAction {
    /// Send a message; answer with [`LinkInput::Sent`].
    Send(SplitMessage),
    /// Read one message. The deadline lies `seconds` after the first `Read` of an
    /// unbroken run of them. Answer with `Received`, `ReadError` or `TimedOut`.
    Read { seconds: u64 },
    /// Publish a status; answer with [`LinkInput::Done`].
    Publish(DfuStatus),
    /// Mark the download as failed and publish [`DfuStatus::Error`]; answer with
    /// [`LinkInput::Done`].
    Abort,
    /// Wait; answer with [`LinkInput::Done`].
    Pause { millis: u64 },
    /// Nothing is left to do.
    Stop,
}

/// How the last [`LinkAction`] went.
#[derive(Clone, Debug, PartialEq, Eq)]
pub enum LinkInput {
    /// Whether the message went out.
    Sent(bool),
    Received(SplitMessage),
    ReadError,
    TimedOut,
    Done,
}

// ---------------------------------------------------------------------------
// Chunks
// ---------------------------------------------------------------------------

/// Chunks that `len` bytes are cut into.
pub open spec fn chunk_count(len: nat) -> nat {
    ((len + SPLIT_CHUNK_SIZE - 1) / SPLIT_CHUNK_SIZE as int) as nat
}

/// Where chunk `index` ends.
pub open spec fn chunk_end(len: nat, index: nat) -> nat {
    if (index + 1) * SPLIT_CHUNK_SIZE < len {
        ((index + 1) * SPLIT_CHUNK_SIZE) as nat
    } else {
        len
    }
}

/// The bytes of chunk `index`.
pub open spec fn chunk_bytes(data: Seq<u8>, index: nat) -> Seq<u8> {
    data.subrange((index * SPLIT_CHUNK_SIZE) as int, chunk_end(data.len(), index) as int)
}

/// Whether the offsets of all chunks of `len` bytes at `base` can be told in 32
/// bits.
pub open spec fn offsets_fit(base: u32, len: nat) -> bool {
    len > 0 ==> base + (chunk_count(len) - 1) * SPLIT_CHUNK_SIZE <= u32::MAX
}

/// Whether `message` carries chunk `index` of `data`, for byte offset `offset`,
/// padded with zeros.
pub open spec fn carries_chunk(
    message: SplitMessage,
    offset: int,
    data: Seq<u8>,
    index: nat,
) -> bool {
    match message {
        SplitMessage::FirmwareChunk { offset: o, len, data: d } => {
            let bytes = chunk_bytes(data, index);
            &&& o == offset
            &&& len == bytes.len()
            &&& d@.subrange(0, len as int) == bytes
            &&& forall|i: int| len <= i < SPLIT_CHUNK_SIZE ==> d@[i] == 0
        },
        _ => false,
    }
}

/// What an incoming message means to a central that waits for the
/// acknowledgement of the chunk at `offset` with CRC-32 `crc`.
#[derive(Clone, Copy, Debug, PartialEq, Eq, Structural)]
pub enum AckVerdict {
    /// The chunk arrived whole.
    Acked,
    /// This try failed.
    Failed,
    /// Not an answer to this chunk: go on waiting.
    Waiting,
}

pub open spec fn ack_verdict(input: LinkInput, offset: int, crc: u32) -> AckVerdict {
    match input {
        LinkInput::Received(SplitMessage::FirmwareChunkAck { offset: o, crc: c }) => if o
            == offset {
            if c == crc {
                AckVerdict::Acked
            } else {
                AckVerdict::Failed
            }
        } else {
            AckVerdict::Waiting
        },
        LinkInput::ReadError | LinkInput::TimedOut => AckVerdict::Failed,
        _ => AckVerdict::Waiting,
    }
}

/// Judges one reading while an acknowledgement is awaited.
pub fn judge_ack(input: &LinkInput, offset: u32, crc: u32) -> (r: AckVerdict)
    ensures
        r == ack_verdict(*input, offset as int, crc),
{
    match input {
        LinkInput::Received(SplitMessage::FirmwareChunkAck { offset: o, crc: c }) => {
            if *o == offset {
                if *c == crc {
                    AckVerdict::Acked
                } else {
                    AckVerdict::Failed
                }
            } else {
                AckVerdict::Waiting
            }
        },
        LinkInput::ReadError => AckVerdict::Failed,
        LinkInput::TimedOut => AckVerdict::Failed,
        _ => AckVerdict::Waiting,
    }
}

pub proof fn lemma_chunk_bounds(len: nat, index: nat)
    ensures
        index < chunk_count(len) <==> index * SPLIT_CHUNK_SIZE < len,
        index < chunk_count(len) ==> index * SPLIT_CHUNK_SIZE <= (chunk_count(len) - 1)
            * SPLIT_CHUNK_SIZE,
        index < chunk_count(len) ==> index * SPLIT_CHUNK_SIZE < chunk_end(len, index) <= len
            && chunk_end(len, index) - index * SPLIT_CHUNK_SIZE <= SPLIT_CHUNK_SIZE,
        index <= chunk_count(len) ==> index * SPLIT_CHUNK_SIZE < len + SPLIT_CHUNK_SIZE,
{
    assert(index < (len + 127) / 128 <==> index * 128 < len) by (nonlinear_arith)
        requires
            index >= 0,
            len >= 0,
    ;
    assert(index <= (len + 127) / 128 ==> index * 128 < len + 128) by (nonlinear_arith)
        requires
            index >= 0,
            len >= 0,
    ;
}

/// Chunk `index` of `data`: the bytes themselves.
pub(crate) fn chunk_slice(data: &[u8], index: usize) -> (r: &[u8])
    requires
        index < chunk_count(data@.len()),
        index * SPLIT_CHUNK_SIZE <= usize::MAX,
    ensures
        r@ == chunk_bytes(data@, index as nat),
        0 < r@.len() <= SPLIT_CHUNK_SIZE,
{
    proof {
        lemma_chunk_bounds(data@.len(), index as nat);
    }
    let start: usize = index * SPLIT_CHUNK_SIZE;
    let left: usize = data.len() - start;
    let end: usize = if left > SPLIT_CHUNK_SIZE {
        start + SPLIT_CHUNK_SIZE
    } else {
        data.len()
    };
    vstd::slice::slice_subrange(data, start, end)
}

/// The message that carries chunk `index` of `data`.
pub(crate) fn chunk_message(offset: u32, data: &[u8], index: usize) -> (r: SplitMessage)
    requires
        index < chunk_count(data@.len()),
        index * SPLIT_CHUNK_SIZE <= usize::MAX,
    ensures
        carries_chunk(r, offset as int, data@, index as nat),
{
    let bytes = chunk_slice(data, index);
    let mut buf = [0u8;SPLIT_CHUNK_SIZE];
    let n: usize = bytes.len();
    let mut i: usize = 0;
    while i < n
        invariant
            n == bytes@.len(),
            n <= SPLIT_CHUNK_SIZE,
            i <= n,
            forall|j: int| 0 <= j < i ==> buf@[j] == bytes@[j],
            forall|j: int| i <= j < SPLIT_CHUNK_SIZE ==> buf@[j] == 0,
        decreases n - i,
    {
        buf[i] = bytes[i];
        i = i + 1;
    }
    assert(buf@.subrange(0, n as int) =~= bytes@);
    SplitMessage::FirmwareChunk { offset, len: n as u16, data: buf }
}

// ---------------------------------------------------------------------------
// Sending a whole image
// ---------------------------------------------------------------------------

/// What a [`FirmwareUpdate`] is at.
#[derive(Clone, Copy, Debug, PartialEq, Eq, Structural)]
pub enum UpdatePhase {
    /// Publish the start of an attempt.
    Announce,
    /// Send the current chunk.
    SendChunk,
    /// Publish that a chunk went out.
    NoteProgress,
    /// Wait for the chunk's acknowledgement.
    AwaitAck,
    /// Tell the peripheral that all chunks were sent.
    SendComplete,
    /// Wait for the CRC-32 of what the peripheral reads back.
    AwaitCrc,
    /// Accept the read-back.
    SendOk,
    /// Wait for the peripheral's confirmation.
    AwaitConfirm,
    /// Reject the read-back.
    SendFail,
    /// Let the peripheral settle before the next attempt.
    Pause,
    /// Publish how the update ended.
    Report(DfuStatus),
    Stopped,
}

/// Where a [`FirmwareUpdate`] stands.
#[derive(Clone, Copy, Debug, PartialEq, Eq, Structural)]
pub struct UpdateState {
    /// The attempt, from 1 up.
    pub attempt: u32,
    /// The current chunk.
    pub index: usize,
    /// Times the current chunk has failed.
    pub tries: u32,
    pub phase: UpdatePhase,
}

/// The step after a failed attempt: the next one, or the final report.
pub open spec fn after_failed_attempt(s: UpdateState) -> UpdateState {
    if s.attempt < MAX_ATTEMPTS {
        UpdateState { attempt: (s.attempt + 1) as u32, phase: UpdatePhase::Announce, ..s }
    } else {
        UpdateState { phase: UpdatePhase::Report(DfuStatus::Error), ..s }
    }
}

/// The step that starts chunk `index`, or ends the transfer where there is none:
/// the central's own CRC-32 has to match before the peripheral is asked for its.
pub open spec fn at_chunk(firmware: Seq<u8>, hash: u32, s: UpdateState, index: int) -> UpdateState {
    if index < chunk_count(firmware.len()) {
        UpdateState { index: index as usize, tries: 0, phase: UpdatePhase::SendChunk, ..s }
    } else if crc_of(firmware) == hash {
        UpdateState { index: index as usize, tries: 0, phase: UpdatePhase::SendComplete, ..s }
    } else {
        UpdateState {
            index: index as usize,
            tries: 0,
            phase: UpdatePhase::Report(DfuStatus::Error),
            ..s
        }
    }
}

/// Where the update stands after `input`. An input that does not answer the
/// phase's action leaves it where it is.
pub open spec fn next_state(
    firmware: Seq<u8>,
    hash: u32,
    s: UpdateState,
    input: LinkInput,
) -> UpdateState {
    match s.phase {
        UpdatePhase::Announce => match input {
            LinkInput::Done => at_chunk(firmware, hash, s, 0),
            _ => s,
        },
        UpdatePhase::SendChunk => match input {
            LinkInput::Sent(true) => UpdateState { phase: UpdatePhase::NoteProgress, ..s },
            LinkInput::Sent(false) => UpdateState { phase: UpdatePhase::Stopped, ..s },
            _ => s,
        },
        UpdatePhase::NoteProgress => match input {
            LinkInput::Done => UpdateState { phase: UpdatePhase::AwaitAck, ..s },
            _ => s,
        },
        UpdatePhase::AwaitAck => match ack_verdict(
            input,
            s.index * SPLIT_CHUNK_SIZE,
            crc_of(chunk_bytes(firmware, s.index as nat)),
        ) {
            AckVerdict::Acked => at_chunk(firmware, hash, s, s.index + 1),
            AckVerdict::Failed => if s.tries + 1 < MAX_RETRIES {
                UpdateState { tries: (s.tries + 1) as u32, phase: UpdatePhase::SendChunk, ..s }
            } else {
                after_failed_attempt(s)
            },
            AckVerdict::Waiting => s,
        },
        UpdatePhase::SendComplete => match input {
            LinkInput::Sent(true) => UpdateState { phase: UpdatePhase::AwaitCrc, ..s },
            LinkInput::Sent(false) => UpdateState { phase: UpdatePhase::Stopped, ..s },
            _ => s,
        },
        UpdatePhase::AwaitCrc => match input {
            LinkInput::Received(SplitMessage::FirmwareCrcReport(crc)) => if crc == hash {
                UpdateState { phase: UpdatePhase::SendOk, ..s }
            } else {
                UpdateState { phase: UpdatePhase::SendFail, ..s }
            },
            LinkInput::ReadError | LinkInput::TimedOut => after_failed_attempt(s),
            _ => s,
        },
        UpdatePhase::SendOk => match input {
            LinkInput::Sent(_) => UpdateState { phase: UpdatePhase::AwaitConfirm, ..s },
            _ => s,
        },
        UpdatePhase::AwaitConfirm => match input {
            LinkInput::Received(SplitMessage::FirmwareUpdateConfirm) => UpdateState {
                phase: UpdatePhase::Report(DfuStatus::Finished),
                ..s
            },
            LinkInput::ReadError => UpdateState { phase: UpdatePhase::Stopped, ..s },
            LinkInput::TimedOut => UpdateState {
                phase: UpdatePhase::Report(DfuStatus::Error),
                ..s
            },
            _ => s,
        },
        UpdatePhase::SendFail => match input {
            LinkInput::Sent(_) => UpdateState { phase: UpdatePhase::Pause, ..s },
            _ => s,
        },
        UpdatePhase::Pause => match input {
            LinkInput::Done => after_failed_attempt(s),
            _ => s,
        },
        UpdatePhase::Report(_) => match input {
            LinkInput::Done => UpdateState { phase: UpdatePhase::Stopped, ..s },
            _ => s,
        },
        UpdatePhase::Stopped => s,
    }
}

/// Whether `action` is what an update in state `s` asks for.
pub open spec fn is_update_action(firmware: Seq<u8>, s: UpdateState, action: LinkAction) -> bool {
    match s.phase {
        UpdatePhase::Announce => action == LinkAction::Publish(DfuStatus::Started),
        UpdatePhase::SendChunk => match action {
            LinkAction::Send(m) => carries_chunk(
                m,
                s.index * SPLIT_CHUNK_SIZE,
                firmware,
                s.index as nat,
            ),
            _ => false,
        },
        UpdatePhase::NoteProgress => action == LinkAction::Publish(DfuStatus::Downloading),
        UpdatePhase::AwaitAck => action == (LinkAction::Read { seconds: 2 }),
        UpdatePhase::SendComplete => action == LinkAction::Send(
            SplitMessage::FirmwareUpdateComplete,
        ),
        UpdatePhase::AwaitCrc => action == (LinkAction::Read { seconds: 5 }),
        UpdatePhase::SendOk => action == LinkAction::Send(SplitMessage::FirmwareCrcOk),
        UpdatePhase::AwaitConfirm => action == (LinkAction::Read { seconds: 2 }),
        UpdatePhase::SendFail => action == LinkAction::Send(SplitMessage::FirmwareCrcFail),
        UpdatePhase::Pause => action == (LinkAction::Pause { millis: 100 }),
        UpdatePhase::Report(status) => action == LinkAction::Publish(status),
        UpdatePhase::Stopped => action == LinkAction::Stop,
    }
}

/// What holds of every state that an update can reach.
pub open spec fn update_state_wf(firmware: Seq<u8>, hash: u32, s: UpdateState) -> bool {
    &&& 1 <= s.attempt <= MAX_ATTEMPTS
    &&& s.tries < MAX_RETRIES
    &&& match s.phase {
        UpdatePhase::SendChunk | UpdatePhase::NoteProgress | UpdatePhase::AwaitAck => s.index
            < chunk_count(firmware.len()),
        UpdatePhase::SendComplete
        | UpdatePhase::AwaitCrc
        | UpdatePhase::SendOk
        | UpdatePhase::AwaitConfirm
        | UpdatePhase::SendFail
        | UpdatePhase::Pause => crc_of(firmware) == hash,
        _ => true,
    }
}

/// An image on its way to a peripheral.
///
/// Each chunk is checked with a CRC-32 of its own and sent up to
/// [`MAX_RETRIES`] times; the whole transfer is tried up to [`MAX_ATTEMPTS`]
/// times. On success the peripheral confirms and starts the new firmware.
pub struct FirmwareUpdate<'a> {
    firmware: &'a [u8],
    expected_hash: u32,
    state: UpdateState,
    crc: Crc32,
}

impl<'a> FirmwareUpdate<'a> {
    pub closed spec fn image(&self) -> Seq<u8> {
        self.firmware@
    }

    pub closed spec fn hash(&self) -> u32 {
        self.expected_hash
    }

    pub closed spec fn spec_state(&self) -> UpdateState {
        self.state
    }

    pub closed spec fn wf(&self) -> bool {
        &&& self.firmware@.len() <= u32::MAX
        &&& update_state_wf(self.firmware@, self.expected_hash, self.state)
        &&& match self.state.phase {
            UpdatePhase::SendChunk | UpdatePhase::NoteProgress | UpdatePhase::AwaitAck => {
                self.crc.covers(
                    self.firmware@.subrange(
                        0,
                        chunk_end(self.firmware@.len(), self.state.index as nat) as int,
                    ),
                )
            },
            _ => true,
        }
    }

    /// Starts to send `firmware`, whose CRC-32 is to be `expected_hash`.
    pub fn send_firmware_update(firmware: &'a [u8], expected_hash: u32) -> (r: Self)
        requires
            firmware@.len() <= u32::MAX,
        ensures
            r.wf(),
            r.image() == firmware@,
            r.hash() == expected_hash,
            r.spec_state() == (UpdateState {
                attempt: 1,
                index: 0,
                tries: 0,
                phase: UpdatePhase::Announce,
            }),
    {
        FirmwareUpdate {
            firmware,
            expected_hash,
            state: UpdateState { attempt: 1, index: 0, tries: 0, phase: UpdatePhase::Announce },
            crc: Crc32::new(),
        }
    }

    pub fn state(&self) -> (r: UpdateState)
        ensures
            r == self.spec_state(),
    {
        self.state
    }

    /// What the link is to do now.
    pub fn action(&self) -> (r: LinkAction)
        requires
            self.wf(),
        ensures
            is_update_action(self.image(), self.spec_state(), r),
    {
        match self.state.phase {
            UpdatePhase::Announce => LinkAction::Publish(DfuStatus::Started),
            UpdatePhase::SendChunk => {
                proof {
                    lemma_chunk_bounds(self.firmware@.len(), self.state.index as nat);
                }
                let offset: u32 = (self.state.index * SPLIT_CHUNK_SIZE) as u32;
                LinkAction::Send(chunk_message(offset, self.firmware, self.state.index))
            },
            UpdatePhase::NoteProgress => LinkAction::Publish(DfuStatus::Downloading),
            UpdatePhase::AwaitAck => LinkAction::Read { seconds: 2 },
            UpdatePhase::SendComplete => LinkAction::Send(SplitMessage::FirmwareUpdateComplete),
            UpdatePhase::AwaitCrc => LinkAction::Read { seconds: 5 },
            UpdatePhase::SendOk => LinkAction::Send(SplitMessage::FirmwareCrcOk),
            UpdatePhase::AwaitConfirm => LinkAction::Read { seconds: 2 },
            UpdatePhase::SendFail => LinkAction::Send(SplitMessage::FirmwareCrcFail),
            UpdatePhase::Pause => LinkAction::Pause { millis: 100 },
            UpdatePhase::Report(status) => LinkAction::Publish(status),
            UpdatePhase::Stopped => LinkAction::Stop,
        }
    }

    fn fail_attempt(&mut self)
        requires
            update_state_wf(old(self).firmware@, old(self).expected_hash, old(self).state),
            old(self).firmware@.len() <= u32::MAX,
        ensures
            final(self).wf(),
            final(self).firmware == old(self).firmware,
            final(self).expected_hash == old(self).expected_hash,
            final(self).state == after_failed_attempt(old(self).state),
    {
        if self.state.attempt < MAX_ATTEMPTS {
            self.state.attempt = self.state.attempt + 1;
            self.state.phase = UpdatePhase::Announce;
        } else {
            self.state.phase = UpdatePhase::Report(DfuStatus::Error);
        }
    }

    fn start_chunk(&mut self, index: usize)
        requires
            1 <= old(self).state.attempt <= MAX_ATTEMPTS,
            old(self).firmware@.len() <= u32::MAX,
            index <= chunk_count(old(self).firmware@.len()),
            old(self).crc.covers(
                old(self).firmware@.subrange(
                    0,
                    if index * SPLIT_CHUNK_SIZE < old(self).firmware@.len() {
                        index * SPLIT_CHUNK_SIZE
                    } else {
                        old(self).firmware@.len() as int
                    },
                ),
            ),
        ensures
            final(self).wf(),
            final(self).firmware == old(self).firmware,
            final(self).expected_hash == old(self).expected_hash,
            final(self).state == at_chunk(
                old(self).firmware@,
                old(self).expected_hash,
                old(self).state,
                index as int,
            ),
    {
        proof {
            lemma_chunk_bounds(self.firmware@.len(), index as nat);
        }
        self.state.index = index;
        self.state.tries = 0;
        let len: usize = self.firmware.len();
        proof {
            assert(index <= len / 128 ==> index * 128 <= len) by (nonlinear_arith)
                requires
                    index >= 0,
                    len >= 0,
            ;
            assert(index > len / 128 ==> index * 128 > len) by (nonlinear_arith)
                requires
                    index >= 0,
                    len >= 0,
            ;
        }
        if index <= len / SPLIT_CHUNK_SIZE && index * SPLIT_CHUNK_SIZE < len {
            let bytes = chunk_slice(self.firmware, index);
            self.crc.update(bytes);
            self.state.phase = UpdatePhase::SendChunk;
            proof {
                let f = self.firmware@;
                let before = f.subrange(0, index * SPLIT_CHUNK_SIZE);
                assert(self.crc.covers(before + bytes@));
                assert(before + bytes@ =~= f.subrange(
                    0,
                    chunk_end(f.len(), index as nat) as int,
                ));
            }
        } else {
            proof {
                assert(self.firmware@.subrange(0, self.firmware@.len() as int) =~= self.firmware@);
                assert(self.crc.covers(self.firmware@));
            }
            let local: u32 = self.crc.finalize();
            if local == self.expected_hash {
                self.state.phase = UpdatePhase::SendComplete;
            } else {
                self.state.phase = UpdatePhase::Report(DfuStatus::Error);
            }
        }
    }

    /// Takes in how the last action went.
    pub fn advance(&mut self, input: &LinkInput)
        requires
            old(self).wf(),
        ensures
            final(self).wf(),
            final(self).image() == old(self).image(),
            final(self).hash() == old(self).hash(),
            final(self).spec_state() == next_state(
                old(self).image(),
                old(self).hash(),
                old(self).spec_state(),
                *input,
            ),
    {
        match self.state.phase {
            UpdatePhase::Announce => {
                if let LinkInput::Done = input {
                    self.crc = Crc32::new();
                    proof {
                        assert(self.firmware@.subrange(0, 0) =~= Seq::<u8>::empty());
                    }
                    self.start_chunk(0);
                }
            },
            UpdatePhase::SendChunk => {
                if let LinkInput::Sent(ok) = input {
                    self.state.phase =
                    if *ok {
                        UpdatePhase::NoteProgress
                    } else {
                        UpdatePhase::Stopped
                    };
                }
            },
            UpdatePhase::NoteProgress => {
                if let LinkInput::Done = input {
                    self.state.phase = UpdatePhase::AwaitAck;
                }
            },
            UpdatePhase::AwaitAck => {
                let index: usize = self.state.index;
                proof {
                    lemma_chunk_bounds(self.firmware@.len(), index as nat);
                    lemma_chunk_bounds(self.firmware@.len(), (index + 1) as nat);
                }
                let offset: u32 = (index * SPLIT_CHUNK_SIZE) as u32;
                let crc: u32 = crc32(chunk_slice(self.firmware, index));
                match judge_ack(input, offset, crc) {
                    AckVerdict::Acked => self.start_chunk(index + 1),
                    AckVerdict::Failed => {
                        if self.state.tries + 1 < MAX_RETRIES {
                            self.state.tries = self.state.tries + 1;
                            self.state.phase = UpdatePhase::SendChunk;
                        } else {
                            self.fail_attempt();
                        }
                    },
                    AckVerdict::Waiting => {},
                }
            },
            UpdatePhase::SendComplete => {
                if let LinkInput::Sent(ok) = input {
                    self.state.phase =
                    if *ok {
                        UpdatePhase::AwaitCrc
                    } else {
                        UpdatePhase::Stopped
                    };
                }
            },
            UpdatePhase::AwaitCrc => match input {
                LinkInput::Received(SplitMessage::FirmwareCrcReport(crc)) => {
                    self.state.phase =
                    if *crc == self.expected_hash {
                        UpdatePhase::SendOk
                    } else {
                        UpdatePhase::SendFail
                    };
                },
                LinkInput::ReadError => self.fail_attempt(),
                LinkInput::TimedOut => self.fail_attempt(),
                _ => {},
            },
            UpdatePhase::SendOk => {
                if let LinkInput::Sent(_) = input {
                    self.state.phase = UpdatePhase::AwaitConfirm;
                }
            },
            UpdatePhase::AwaitConfirm => match input {
                LinkInput::Received(SplitMessage::FirmwareUpdateConfirm) => {
                    self.state.phase = UpdatePhase::Report(DfuStatus::Finished);
                },
                LinkInput::ReadError => {
                    self.state.phase = UpdatePhase::Stopped;
                },
                LinkInput::TimedOut => {
                    self.state.phase = UpdatePhase::Report(DfuStatus::Error);
                },
                _ => {},
            },
            UpdatePhase::SendFail => {
                if let LinkInput::Sent(_) = input {
                    self.state.phase = UpdatePhase::Pause;
                }
            },
            UpdatePhase::Pause => {
                if let LinkInput::Done = input {
                    self.fail_attempt();
                }
            },
            UpdatePhase::Report(_) => {
                if let LinkInput::Done = input {
                    self.state.phase = UpdatePhase::Stopped;
                }
            },
            UpdatePhase::Stopped => {},
        }
    }
}

// ---------------------------------------------------------------------------
// Laws of an update
// ---------------------------------------------------------------------------

/// Every input keeps an update within its limits of attempts and retries, and
/// the stages after the last chunk are only ever reached with an image whose
/// CRC-32 is the expected one.
pub proof fn law_update_keeps_its_limits(
    firmware: Seq<u8>,
    hash: u32,
    s: UpdateState,
    input: LinkInput,
)
    requires
        update_state_wf(firmware, hash, s),
        firmware.len() <= u32::MAX,
    ensures
        update_state_wf(firmware, hash, next_state(firmware, hash, s, input)),
{
    lemma_chunk_bounds(firmware.len(), 0);
    if s.phase == UpdatePhase::AwaitAck {
        lemma_chunk_bounds(firmware.len(), s.index as nat);
        lemma_chunk_bounds(firmware.len(), (s.index + 1) as nat);
    }
}

/// The peripheral is told that its copy is good only after it has reported the
/// expected CRC-32, and only when the central's image has that CRC-32 too.
pub proof fn law_only_a_matching_copy_is_accepted(
    firmware: Seq<u8>,
    hash: u32,
    s: UpdateState,
    input: LinkInput,
)
    requires
        update_state_wf(firmware, hash, s),
        s.phase != UpdatePhase::SendOk,
        next_state(firmware, hash, s, input).phase == UpdatePhase::SendOk,
    ensures
        input == LinkInput::Received(SplitMessage::FirmwareCrcReport(hash)),
        crc_of(firmware) == hash,
{
}

/// Success is published only after the peripheral has confirmed.
pub proof fn law_finished_means_confirmed(
    firmware: Seq<u8>,
    hash: u32,
    s: UpdateState,
    input: LinkInput,
)
    requires
        s.phase != UpdatePhase::Report(DfuStatus::Finished),
        next_state(firmware, hash, s, input).phase == UpdatePhase::Report(DfuStatus::Finished),
    ensures
        s.phase == UpdatePhase::AwaitConfirm,
        input == LinkInput::Received(SplitMessage::FirmwareUpdateConfirm),
{
}

/// A chunk is left behind only once its acknowledgement carried its own offset
/// and CRC-32.
pub proof fn law_a_chunk_is_left_only_when_acknowledged(
    firmware: Seq<u8>,
    hash: u32,
    s: UpdateState,
    input: LinkInput,
)
    requires
        update_state_wf(firmware, hash, s),
        s.phase == UpdatePhase::AwaitAck,
        next_state(firmware, hash, s, input).attempt == s.attempt,
        next_state(firmware, hash, s, input).index != s.index,
    ensures
        next_state(firmware, hash, s, input).index == s.index + 1,
        exists|offset: u32|
            offset == s.index * SPLIT_CHUNK_SIZE && input == LinkInput::Received(
                SplitMessage::FirmwareChunkAck {
                    offset,
                    crc: crc_of(chunk_bytes(firmware, s.index as nat)),
                },
            ),
{
    match input {
        LinkInput::Received(SplitMessage::FirmwareChunkAck { offset, crc }) => {
            assert(offset == s.index * SPLIT_CHUNK_SIZE);
        },
        _ => {},
    }
    lemma_chunk_bounds(firmware.len(), s.index as nat);
}

/// Steps that an update has left at most, were every try to fail last.
pub open spec fn update_rank(firmware: Seq<u8>, s: UpdateState) -> int {
    let chunks = chunk_count(firmware.len()) as int;
    let attempt = 9 * chunks + 9;
    let rest = (MAX_ATTEMPTS - s.attempt) * attempt;
    match s.phase {
        UpdatePhase::Announce => rest + 9 * chunks + 8,
        UpdatePhase::SendChunk => rest + 8 + 9 * (chunks - 1 - s.index) + 3 * (MAX_RETRIES
            - s.tries) - 1,
        UpdatePhase::NoteProgress => rest + 8 + 9 * (chunks - 1 - s.index) + 3 * (MAX_RETRIES
            - s.tries) - 2,
        UpdatePhase::AwaitAck => rest + 8 + 9 * (chunks - 1 - s.index) + 3 * (MAX_RETRIES
            - s.tries) - 3,
        UpdatePhase::SendComplete => rest + 7,
        UpdatePhase::AwaitCrc => rest + 6,
        UpdatePhase::SendOk => rest + 5,
        UpdatePhase::AwaitConfirm => rest + 4,
        UpdatePhase::SendFail => rest + 5,
        UpdatePhase::Pause => rest + 4,
        UpdatePhase::Report(_) => 1,
        UpdatePhase::Stopped => 0,
    }
}

/// An update comes to an end: an input either leaves it where it is or brings it
/// closer to its stop.
pub proof fn law_update_terminates(
    firmware: Seq<u8>,
    hash: u32,
    s: UpdateState,
    input: LinkInput,
)
    requires
        update_state_wf(firmware, hash, s),
        firmware.len() <= u32::MAX,
    ensures
        update_rank(firmware, s) >= 0,
        next_state(firmware, hash, s, input) == s || update_rank(
            firmware,
            next_state(firmware, hash, s, input),
        ) < update_rank(firmware, s),
{
    let n = next_state(firmware, hash, s, input);
    let chunks = chunk_count(firmware.len()) as int;
    lemma_chunk_bounds(firmware.len(), 0);
    lemma_chunk_bounds(firmware.len(), s.index as nat);
    lemma_chunk_bounds(firmware.len(), (s.index + 1) as nat);
    assert((MAX_ATTEMPTS - s.attempt) * (9 * chunks + 9) >= 0) by (nonlinear_arith)
        requires
            s.attempt <= MAX_ATTEMPTS,
            chunks >= 0,
    ;
    if n.attempt == s.attempt + 1 {
        assert((MAX_ATTEMPTS - s.attempt) * (9 * chunks + 9) == (MAX_ATTEMPTS - n.attempt) * (9
            * chunks + 9) + (9 * chunks + 9)) by (nonlinear_arith)
            requires
                n.attempt == s.attempt + 1,
        ;
    }
}

/// The answer of a link that loses nothing and a peripheral that stores what it
/// is sent.
pub open spec fn faithful_answer(firmware: Seq<u8>, hash: u32, s: UpdateState) -> LinkInput {
    match s.phase {
        UpdatePhase::Announce
        | UpdatePhase::NoteProgress
        | UpdatePhase::Pause
        | UpdatePhase::Report(_)
        | UpdatePhase::Stopped => LinkInput::Done,
        UpdatePhase::SendChunk
        | UpdatePhase::SendComplete
        | UpdatePhase::SendOk
        | UpdatePhase::SendFail => LinkInput::Sent(true),
        UpdatePhase::AwaitAck => LinkInput::Received(
            SplitMessage::FirmwareChunkAck {
                offset: (s.index * SPLIT_CHUNK_SIZE) as u32,
                crc: crc_of(chunk_bytes(firmware, s.index as nat)),
            },
        ),
        UpdatePhase::AwaitCrc => LinkInput::Received(SplitMessage::FirmwareCrcReport(hash)),
        UpdatePhase::AwaitConfirm => LinkInput::Received(SplitMessage::FirmwareUpdateConfirm),
    }
}

/// The state after `n` faithful answers.
pub open spec fn faithful_run(firmware: Seq<u8>, hash: u32, s: UpdateState, n: nat) -> UpdateState
    decreases n,
{
    if n == 0 {
        s
    } else {
        let t = next_state(firmware, hash, s, faithful_answer(firmware, hash, s));
        faithful_run(firmware, hash, t, (n - 1) as nat)
    }
}

proof fn lemma_faithful_from_chunk(firmware: Seq<u8>, hash: u32, s: UpdateState) -> (n: nat)
    requires
        firmware.len() <= u32::MAX,
        crc_of(firmware) == hash,
        update_state_wf(firmware, hash, s),
        s.phase == UpdatePhase::SendChunk || s.phase == UpdatePhase::SendComplete,
        s.index <= chunk_count(firmware.len()),
    ensures
        faithful_run(firmware, hash, s, n).phase == UpdatePhase::Report(DfuStatus::Finished),
    decreases chunk_count(firmware.len()) - s.index + if s.phase == UpdatePhase::SendChunk {
        1int
    } else {
        0int
    },
{
    reveal_with_fuel(faithful_run, 5);
    if s.phase == UpdatePhase::SendComplete {
        4
    } else {
        lemma_chunk_bounds(firmware.len(), s.index as nat);
        lemma_chunk_bounds(firmware.len(), (s.index + 1) as nat);
        let s1 = next_state(firmware, hash, s, LinkInput::Sent(true));
        let s2 = next_state(firmware, hash, s1, LinkInput::Done);
        let s3 = next_state(firmware, hash, s2, faithful_answer(firmware, hash, s2));
        assert(s3 == at_chunk(firmware, hash, s2, s.index + 1));
        let m = lemma_faithful_from_chunk(firmware, hash, s3);
        assert(faithful_run(firmware, hash, s, (m + 3) as nat) == faithful_run(
            firmware,
            hash,
            s1,
            (m + 2) as nat,
        ));
        (m + 3) as nat
    }
}

/// A sound image over a faithful link ends in success, at the first attempt.
pub proof fn law_a_faithful_link_updates_the_peripheral(
    firmware: Seq<u8>,
    hash: u32,
    start: UpdateState,
) -> (n: nat)
    requires
        firmware.len() <= u32::MAX,
        crc_of(firmware) == hash,
        start == (UpdateState { attempt: 1, index: 0, tries: 0, phase: UpdatePhase::Announce }),
    ensures
        faithful_run(firmware, hash, start, n).phase == UpdatePhase::Report(DfuStatus::Finished),
{
    lemma_chunk_bounds(firmware.len(), 0);
    let s = next_state(firmware, hash, start, LinkInput::Done);
    let m = lemma_faithful_from_chunk(firmware, hash, s);
    (m + 1) as nat
}

// ---------------------------------------------------------------------------
// Laws
// ---------------------------------------------------------------------------

/// A chunk holds the image's bytes from 128 times its number on: 128 of them, or what is left
/// at the end. No byte is left over behind the last chunk, and no chunk is empty.
pub proof fn law_chunks_are_128_bytes_of_the_image(data: Seq<u8>, index: nat, j: int)
    requires
        index < chunk_count(data.len()),
    ensures
        chunk_bytes(data, index).len() == (if 128 * (index + 1) <= data.len() {
            128
        } else {
            data.len() - 128 * index
        }),
        0 < chunk_bytes(data, index).len() <= 128,
        0 <= j < chunk_bytes(data, index).len() ==> chunk_bytes(data, index)[j] == data[128 * index
            + j],
        128 * chunk_count(data.len()) >= data.len(),
{
}

/// Only an acknowledgement of the chunk's own offset and CRC-32 counts. One of its offset with
/// another CRC-32 fails the try, as do a read error and a timeout; anything else is not meant
/// for the chunk.
pub proof fn law_only_its_own_acknowledgement_counts(
    input: LinkInput,
    offset: u32,
    crc: u32,
)
    ensures
        ack_verdict(input, offset as int, crc) is Acked <==> input == LinkInput::Received(
            SplitMessage::FirmwareChunkAck { offset, crc },
        ),
        ack_verdict(input, offset as int, crc) is Failed <==> input is ReadError || input
            is TimedOut || (input matches LinkInput::Received(
            SplitMessage::FirmwareChunkAck { offset: o, crc: c },
        ) && o == offset && c != crc),
{
}

/// A chunk whose try failed is sent again, the same chunk, until its third try has failed; the
/// whole transfer then starts again, until the third attempt has failed, which ends the update
/// with an error.
pub proof fn law_a_failed_chunk_is_tried_again(
    firmware: Seq<u8>,
    hash: u32,
    s: UpdateState,
    input: LinkInput,
)
    requires
        update_state_wf(firmware, hash, s),
        s.phase == UpdatePhase::AwaitAck,
        input is ReadError || input is TimedOut || (input matches LinkInput::Received(
            SplitMessage::FirmwareChunkAck { offset, crc },
        ) && offset == s.index * 128 && crc != crc_of(chunk_bytes(firmware, s.index as nat))),
    ensures
        ({
            let t = next_state(firmware, hash, s, input);
            if s.tries < 2 {
                &&& t.phase == UpdatePhase::SendChunk
                &&& t.index == s.index && t.attempt == s.attempt && t.tries == s.tries + 1
            } else if s.attempt < 3 {
                &&& t.phase == UpdatePhase::Announce
                &&& t.attempt == s.attempt + 1
            } else {
                t.phase == UpdatePhase::Report(DfuStatus::Error)
            }
        }),
{
}

/// An attempt goes through the image from its first chunk to its last, each with all its tries
/// before it. The end is announced only to a peripheral whose image has the expected CRC-32.
pub proof fn law_an_attempt_sends_every_chunk_in_turn(
    firmware: Seq<u8>,
    hash: u32,
    s: UpdateState,
)
    requires
        update_state_wf(firmware, hash, s),
        firmware.len() <= u32::MAX,
    ensures
        s.phase == UpdatePhase::Announce ==> {
            let t = next_state(firmware, hash, s, LinkInput::Done);
            &&& t.index == 0 && t.tries == 0 && t.attempt == s.attempt
            &&& t.phase == (if firmware.len() > 0 {
                UpdatePhase::SendChunk
            } else if crc_of(firmware) == hash {
                UpdatePhase::SendComplete
            } else {
                UpdatePhase::Report(DfuStatus::Error)
            })
        },
        s.phase == UpdatePhase::AwaitAck ==> {
            let t = next_state(
                firmware,
                hash,
                s,
                LinkInput::Received(
                    SplitMessage::FirmwareChunkAck {
                        offset: (s.index * 128) as u32,
                        crc: crc_of(chunk_bytes(firmware, s.index as nat)),
                    },
                ),
            );
            &&& t.index == s.index + 1 && t.tries == 0 && t.attempt == s.attempt
            &&& t.phase == (if (s.index + 1) * 128 < firmware.len() {
                UpdatePhase::SendChunk
            } else if crc_of(firmware) == hash {
                UpdatePhase::SendComplete
            } else {
                UpdatePhase::Report(DfuStatus::Error)
            })
        },
{
}

/// A copy with another CRC-32 is rejected, and after a pause of 100 milliseconds the transfer
/// is tried again, at most three times in all. A peripheral that does not report in time costs
/// an attempt too, and one that does not confirm in time ends the update with an error.
pub proof fn law_a_rejected_copy_costs_an_attempt(
    firmware: Seq<u8>,
    hash: u32,
    s: UpdateState,
    crc: u32,
    sent: bool,
)
    requires
        update_state_wf(firmware, hash, s),
        s.phase == UpdatePhase::AwaitCrc,
    ensures
        ({
            let judged = next_state(
                firmware,
                hash,
                s,
                LinkInput::Received(SplitMessage::FirmwareCrcReport(crc)),
            );
            let told = next_state(firmware, hash, judged, LinkInput::Sent(sent));
            let after = if crc == hash {
                next_state(firmware, hash, told, LinkInput::TimedOut)
            } else {
                next_state(firmware, hash, told, LinkInput::Done)
            };
            &&& crc == hash ==> is_update_action(
                firmware,
                judged,
                LinkAction::Send(SplitMessage::FirmwareCrcOk),
            ) && is_update_action(firmware, told, LinkAction::Read { seconds: 2 }) && after.phase
                == UpdatePhase::Report(DfuStatus::Error)
            &&& crc != hash ==> is_update_action(
                firmware,
                judged,
                LinkAction::Send(SplitMessage::FirmwareCrcFail),
            ) && is_update_action(firmware, told, LinkAction::Pause { millis: 100 }) && (
            s.attempt < 3 ==> after.phase == UpdatePhase::Announce && after.attempt == s.attempt
                + 1) && (s.attempt == 3 ==> after.phase == UpdatePhase::Report(DfuStatus::Error))
            &&& s.attempt < 3 ==> next_state(firmware, hash, s, LinkInput::TimedOut).phase
                == UpdatePhase::Announce
            &&& s.attempt == 3 ==> next_state(firmware, hash, s, LinkInput::TimedOut).phase
                == UpdatePhase::Report(DfuStatus::Error)
            &&& next_state(firmware, hash, s, LinkInput::ReadError) == next_state(
                firmware,
                hash,
                s,
                LinkInput::TimedOut,
            )
        }),
{
}

/// A link on which a chunk or the end of the image cannot be sent ends the update without a
/// report; what is published at an end is published once.
pub proof fn law_a_dead_link_ends_an_update(
    firmware: Seq<u8>,
    hash: u32,
    s: UpdateState,
    input: LinkInput,
)
    ensures
        s.phase == UpdatePhase::SendChunk || s.phase == UpdatePhase::SendComplete ==> next_state(
            firmware,
            hash,
            s,
            LinkInput::Sent(false),
        ).phase == UpdatePhase::Stopped,
        s.phase is Report ==> next_state(firmware, hash, s, LinkInput::Done).phase
            == UpdatePhase::Stopped,
        s.phase == UpdatePhase::Stopped ==> next_state(firmware, hash, s, input) == s,
        s.phase == UpdatePhase::AwaitConfirm ==> next_state(
            firmware,
            hash,
            s,
            LinkInput::ReadError,
        ).phase == UpdatePhase::Stopped,
{
}

/// An update reads where it awaits an answer, and gives the one on the checksum five seconds and
/// the others two; it sends, publishes and pauses where that is its turn, and stops at its end.
pub proof fn law_an_update_asks_for_what_its_phase_needs(
    firmware: Seq<u8>,
    s: UpdateState,
    action: LinkAction,
)
    requires
        is_update_action(firmware, s, action),
    ensures
        action is Read <==> s.phase is AwaitAck || s.phase is AwaitCrc || s.phase is AwaitConfirm,
        action matches LinkAction::Read { seconds } ==> seconds == (if s.phase is AwaitCrc {
            5int
        } else {
            2
        }),
        action is Send <==> s.phase is SendChunk || s.phase is SendComplete || s.phase is SendOk
            || s.phase is SendFail,
        s.phase is SendComplete ==> action == LinkAction::Send(
            SplitMessage::FirmwareUpdateComplete,
        ),
        s.phase is SendOk ==> action == LinkAction::Send(SplitMessage::FirmwareCrcOk),
        s.phase is SendFail ==> action == LinkAction::Send(SplitMessage::FirmwareCrcFail),
        action is Publish <==> s.phase is Announce || s.phase is NoteProgress || s.phase is Report,
        s.phase is Announce ==> action == LinkAction::Publish(DfuStatus::Started),
        s.phase is NoteProgress ==> action == LinkAction::Publish(DfuStatus::Downloading),
        action is Pause <==> s.phase is Pause,
        action matches LinkAction::Pause { millis } ==> millis == 100,
        action is Stop <==> s.phase is Stopped,
{
}

} // verus!
