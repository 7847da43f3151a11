//! Forwarding of a host's DFU download to a peripheral, and the check of a
//! peripheral's firmware when its link comes up.

use vstd::prelude::*;
use crate::bounded::DfuBlock;
use crate::crc32::{crc32, crc_of, crc_run, lemma_crc_run_concat, Crc32};
use crate::dfu::{DfuCmd, DfuTarget};
use crate::split::dfu::{
    ack_verdict, carries_chunk, chunk_bytes, chunk_count, chunk_end, chunk_message, chunk_slice,
    judge_ack, lemma_chunk_bounds, offsets_fit, AckVerdict, LinkAction, LinkInput, UpdatePolicy, MAX_RETRIES,
};
use crate::split::{SplitMessage, SPLIT_CHUNK_SIZE};
use crate::types::DfuStatus;

verus! {

/// What a [`Passthrough`] is at.
#[derive(Clone, Copy, Debug, PartialEq, Eq, Structural)]
pub enum PassPhase {
    /// No command is being worked on.
    Idle,
    /// Send the current chunk.
    SendChunk,
    /// Wait for the chunk's acknowledgement.
    AwaitAck,
    /// Give the download up.
    Abort,
    /// Tell the peripheral that the download is complete.
    SendComplete,
    /// Wait for the CRC-32 of what the peripheral reads back.
    AwaitCrc,
    /// Reject the read-back.
    SendFail,
    /// Accept the read-back.
    SendOk,
    /// Wait for the peripheral's confirmation.
    AwaitConfirm,
    /// Publish how the download ended.
    Publish(DfuStatus),
    /// Forward a reset.
    SendReset,
}

/// The state of a [`Passthrough`] as its contracts speak of it.
pub struct PassModel {
    /// The CRC register over everything forwarded since the download started.
    pub register: u32,
    /// A chunk failed all its tries: writes are dropped.
    pub aborted: bool,
    pub phase: PassPhase,
    /// The block being forwarded and its flash offset.
    pub block: Seq<u8>,
    pub base: u32,
    /// The current chunk of the block and how often it failed.
    pub index: nat,
    pub tries: u32,
}

impl PassModel {
    /// Starts chunk `index`, which enters the CRC once, or ends the block.
    pub open spec fn at_chunk(self, index: nat) -> PassModel {
        if index < chunk_count(self.block.len()) {
            PassModel {
                register: crc_run(self.register, chunk_bytes(self.block, index)),
                phase: PassPhase::SendChunk,
                index,
                tries: 0,
                ..self
            }
        } else {
            PassModel { phase: PassPhase::Idle, index, tries: 0, ..self }
        }
    }

    /// What command `cmd` starts on the peripheral with number `id`.
    pub open spec fn begin(self, id: u8, cmd: DfuCmd) -> PassModel {
        match cmd {
            DfuCmd::Start(DfuTarget::ForwardPeripheral(n)) => if n == id {
                PassModel { register: 0xFFFF_FFFF, aborted: false, ..self }
            } else {
                self
            },
            DfuCmd::Write(DfuTarget::ForwardPeripheral(n), base, data) => if n == id
                && !self.aborted {
                PassModel { block: data@, base, ..self }.at_chunk(0)
            } else {
                self
            },
            DfuCmd::Finish(DfuTarget::ForwardPeripheral(n)) => if n == id && !self.aborted {
                PassModel { phase: PassPhase::SendComplete, ..self }
            } else {
                self
            },
            DfuCmd::SystemReset(DfuTarget::ForwardPeripheral(n)) => if n == id {
                PassModel { aborted: false, phase: PassPhase::SendReset, ..self }
            } else {
                self
            },
            _ => self,
        }
    }

    /// The state after `input`. An input that does not answer the phase's action
    /// leaves it as it is.
    pub open spec fn next(self, input: LinkInput) -> PassModel {
        let idle = PassModel { phase: PassPhase::Idle, ..self };
        match self.phase {
            PassPhase::Idle => self,
            PassPhase::SendChunk => match input {
                LinkInput::Sent(true) => PassModel { phase: PassPhase::AwaitAck, ..self },
                LinkInput::Sent(false) => idle,
                _ => self,
            },
            PassPhase::AwaitAck => match ack_verdict(
                input,
                self.base + self.index * SPLIT_CHUNK_SIZE,
                crc_of(chunk_bytes(self.block, self.index)),
            ) {
                AckVerdict::Acked => self.at_chunk(self.index + 1),
                AckVerdict::Failed => if self.tries + 1 < MAX_RETRIES {
                    PassModel {
                        tries: (self.tries + 1) as u32,
                        phase: PassPhase::SendChunk,
                        ..self
                    }
                } else {
                    PassModel { aborted: true, phase: PassPhase::Abort, ..self }
                },
                AckVerdict::Waiting => self,
            },
            PassPhase::Abort => match input {
                LinkInput::Done => idle,
                _ => self,
            },
            PassPhase::SendComplete => match input {
                LinkInput::Sent(true) => PassModel { phase: PassPhase::AwaitCrc, ..self },
                LinkInput::Sent(false) => idle,
                _ => self,
            },
            PassPhase::AwaitCrc => match input {
                LinkInput::Received(SplitMessage::FirmwareCrcReport(crc)) => PassModel {
                    register: 0xFFFF_FFFF,
                    phase: if crc == !self.register {
                        PassPhase::SendOk
                    } else {
                        PassPhase::SendFail
                    },
                    ..self
                },
                LinkInput::ReadError | LinkInput::TimedOut => PassModel {
                    register: 0xFFFF_FFFF,
                    phase: PassPhase::SendFail,
                    ..self
                },
                _ => self,
            },
            PassPhase::SendFail => match input {
                LinkInput::Sent(_) => PassModel {
                    phase: PassPhase::Publish(DfuStatus::Error),
                    ..self
                },
                _ => self,
            },
            PassPhase::SendOk => match input {
                LinkInput::Sent(true) => PassModel { phase: PassPhase::AwaitConfirm, ..self },
                LinkInput::Sent(false) => idle,
                _ => self,
            },
            PassPhase::AwaitConfirm => match input {
                LinkInput::Received(SplitMessage::FirmwareUpdateConfirm) => PassModel {
                    phase: PassPhase::Publish(DfuStatus::Finished),
                    ..self
                },
                LinkInput::ReadError => idle,
                LinkInput::TimedOut => PassModel {
                    phase: PassPhase::Publish(DfuStatus::Error),
                    ..self
                },
                _ => self,
            },
            PassPhase::Publish(_) => match input {
                LinkInput::Done => idle,
                _ => self,
            },
            PassPhase::SendReset => match input {
                LinkInput::Sent(_) => idle,
                _ => self,
            },
        }
    }

    /// Whether `action` is what the state asks for.
    pub open spec fn wants(self, action: LinkAction) -> bool {
        match self.phase {
            PassPhase::Idle => action == LinkAction::Stop,
            PassPhase::SendChunk => match action {
                LinkAction::Send(m) => carries_chunk(
                    m,
                    self.base + self.index * SPLIT_CHUNK_SIZE,
                    self.block,
                    self.index,
                ),
                _ => false,
            },
            PassPhase::AwaitAck => action == (LinkAction::Read { seconds: 5 }),
            PassPhase::Abort => action == LinkAction::Abort,
            PassPhase::SendComplete => action == LinkAction::Send(
                SplitMessage::FirmwareUpdateComplete,
            ),
            PassPhase::AwaitCrc => action == (LinkAction::Read { seconds: 5 }),
            PassPhase::SendFail => action == LinkAction::Send(SplitMessage::FirmwareCrcFail),
            PassPhase::SendOk => action == LinkAction::Send(SplitMessage::FirmwareCrcOk),
            PassPhase::AwaitConfirm => action == (LinkAction::Read { seconds: 2 }),
            PassPhase::Publish(status) => action == LinkAction::Publish(status),
            PassPhase::SendReset => action == LinkAction::Send(SplitMessage::SystemReset),
        }
    }

    /// What holds of every state that a passthrough can reach.
    pub open spec fn wf(self) -> bool {
        &&& self.tries < MAX_RETRIES
        &&& self.phase == PassPhase::SendChunk || self.phase == PassPhase::AwaitAck ==> {
            &&& self.index < chunk_count(self.block.len())
            &&& offsets_fit(self.base, self.block.len())
            &&& !self.aborted
        }
    }
}

/// Forwards DFU commands that target one peripheral over the split link.
///
/// On `Finish` the peripheral reads back its DFU partition and reports its
/// CRC-32; the central compares and answers `FirmwareCrcOk` or
/// `FirmwareCrcFail`.
pub struct Passthrough {
    id: usize,
    crc: Crc32,
    aborted: bool,
    phase: PassPhase,
    block: Vec<u8>,
    base: u32,
    index: usize,
    tries: u32,
}

impl Passthrough {
    pub closed spec fn spec_id(&self) -> usize {
        self.id
    }

    pub closed spec fn model(&self) -> PassModel {
        PassModel {
            register: self.crc.register(),
            aborted: self.aborted,
            phase: self.phase,
            block: self.block@,
            base: self.base,
            index: self.index as nat,
            tries: self.tries,
        }
    }

    pub open spec fn wf(&self) -> bool {
        self.model().wf()
    }

    /// Whether a command is a write that goes to the peripheral.
    pub open spec fn forwards(&self, cmd: DfuCmd) -> bool {
        &&& !self.model().aborted
        &&& cmd matches DfuCmd::Write(DfuTarget::ForwardPeripheral(n), _, _) && n
            == self.spec_id() as u8
    }

    /// Nothing forwarded yet.
    pub fn new(id: usize) -> (r: Self)
        ensures
            r.wf(),
            r.spec_id() == id,
            r.model().phase == PassPhase::Idle,
            r.model().register == 0xFFFF_FFFF,
            !r.model().aborted,
    {
        Passthrough {
            id,
            crc: Crc32::new(),
            aborted: false,
            phase: PassPhase::Idle,
            block: Vec::new(),
            base: 0,
            index: 0,
            tries: 0,
        }
    }

    fn start_chunk(&mut self, index: usize)
        requires
            offsets_fit(old(self).base, old(self).block@.len()),
            index <= chunk_count(old(self).block@.len()),
            !old(self).aborted,
        ensures
            final(self).wf(),
            final(self).id == old(self).id,
            final(self).model() == old(self).model().at_chunk(index as nat),
    {
        let len: usize = self.block.len();
        proof {
            lemma_chunk_bounds(self.block@.len(), index as nat);
            assert(index <= len / 128 ==> index * 128 <= len) by (nonlinear_arith)
                requires
                    index >= 0,
                    len >= 0,
            ;
            assert(index > len / 128 ==> index * 128 > len) by (nonlinear_arith)
                requires
                    index >= 0,
                    len >= 0,
            ;
        }
        self.index = index;
        self.tries = 0;
        if index <= len / SPLIT_CHUNK_SIZE && index * SPLIT_CHUNK_SIZE < len {
            let bytes = chunk_slice(self.block.as_slice(), index);
            self.crc.update(bytes);
            self.phase = PassPhase::SendChunk;
        } else {
            self.phase = PassPhase::Idle;
        }
    }

    /// Takes up a command. Those for the central or for other peripherals change
    /// nothing.
    pub fn handle_dfu_event(&mut self, cmd: &DfuCmd)
        requires
            old(self).wf(),
            old(self).model().phase == PassPhase::Idle,
            old(self).forwards(*cmd) ==> (cmd matches DfuCmd::Write(_, base, data) ==> offsets_fit(
                *base,
                data@.len(),
            )),
        ensures
            final(self).wf(),
            final(self).spec_id() == old(self).spec_id(),
            final(self).model() == old(self).model().begin(old(self).spec_id() as u8, *cmd),
    {
        #[verifier::truncate]
        let id: u8 = self.id as u8;
        match cmd {
            DfuCmd::Start(DfuTarget::ForwardPeripheral(n)) => {
                if *n == id {
                    self.crc = Crc32::new();
                    self.aborted = false;
                }
            },
            DfuCmd::Write(DfuTarget::ForwardPeripheral(n), base, data) => {
                if *n == id && !self.aborted {
                    self.block = vstd::slice::slice_to_vec(data.as_slice());
                    self.base = *base;
                    self.start_chunk(0);
                }
            },
            DfuCmd::Finish(DfuTarget::ForwardPeripheral(n)) => {
                if *n == id && !self.aborted {
                    self.phase = PassPhase::SendComplete;
                }
            },
            DfuCmd::SystemReset(DfuTarget::ForwardPeripheral(n)) => {
                if *n == id {
                    self.aborted = false;
                    self.phase = PassPhase::SendReset;
                }
            },
            _ => {},
        }
    }

    /// What the link is to do now. [`LinkAction::Stop`] means that the command is
    /// dealt with.
    pub fn action(&self) -> (r: LinkAction)
        requires
            self.wf(),
        ensures
            self.model().wants(r),
    {
        match self.phase {
            PassPhase::Idle => LinkAction::Stop,
            PassPhase::SendChunk => {
                proof {
                    lemma_chunk_bounds(self.block@.len(), self.index as nat);
                }
                let offset: u32 = self.base + (self.index * SPLIT_CHUNK_SIZE) as u32;
                LinkAction::Send(chunk_message(offset, self.block.as_slice(), self.index))
            },
            PassPhase::AwaitAck => LinkAction::Read { seconds: 5 },
            PassPhase::Abort => LinkAction::Abort,
            PassPhase::SendComplete => LinkAction::Send(SplitMessage::FirmwareUpdateComplete),
            PassPhase::AwaitCrc => LinkAction::Read { seconds: 5 },
            PassPhase::SendFail => LinkAction::Send(SplitMessage::FirmwareCrcFail),
            PassPhase::SendOk => LinkAction::Send(SplitMessage::FirmwareCrcOk),
            PassPhase::AwaitConfirm => LinkAction::Read { seconds: 2 },
            PassPhase::Publish(status) => LinkAction::Publish(status),
            PassPhase::SendReset => LinkAction::Send(SplitMessage::SystemReset),
        }
    }

    /// Takes in how the last action went.
    pub fn advance(&mut self, input: &LinkInput)
        requires
            old(self).wf(),
        ensures
            final(self).wf(),
            final(self).spec_id() == old(self).spec_id(),
            final(self).model() == old(self).model().next(*input),
    {
        match self.phase {
            PassPhase::Idle => {},
            PassPhase::SendChunk => {
                if let LinkInput::Sent(ok) = input {
                    self.phase = if *ok {
                        PassPhase::AwaitAck
                    } else {
                        PassPhase::Idle
                    };
                }
            },
            PassPhase::AwaitAck => {
                let index: usize = self.index;
                proof {
                    lemma_chunk_bounds(self.block@.len(), index as nat);
                    lemma_chunk_bounds(self.block@.len(), (index + 1) as nat);
                }
                let offset: u32 = self.base + (index * SPLIT_CHUNK_SIZE) as u32;
                let crc: u32 = crc32(chunk_slice(self.block.as_slice(), index));
                match judge_ack(input, offset, crc) {
                    AckVerdict::Acked => self.start_chunk(index + 1),
                    AckVerdict::Failed => {
                        if self.tries + 1 < MAX_RETRIES {
                            self.tries = self.tries + 1;
                            self.phase = PassPhase::SendChunk;
                        } else {
                            self.aborted = true;
                            self.phase = PassPhase::Abort;
                        }
                    },
                    AckVerdict::Waiting => {},
                }
            },
            PassPhase::Abort => {
                if let LinkInput::Done = input {
                    self.phase = PassPhase::Idle;
                }
            },
            PassPhase::SendComplete => {
                if let LinkInput::Sent(ok) = input {
                    self.phase = if *ok {
                        PassPhase::AwaitCrc
                    } else {
                        PassPhase::Idle
                    };
                }
            },
            PassPhase::AwaitCrc => match input {
                LinkInput::Received(SplitMessage::FirmwareCrcReport(crc)) => {
                    let central: u32 = self.crc.finalize();
                    self.crc = Crc32::new();
                    self.phase = if *crc == central {
                        PassPhase::SendOk
                    } else {
                        PassPhase::SendFail
                    };
                },
                LinkInput::ReadError => {
                    self.crc = Crc32::new();
                    self.phase = PassPhase::SendFail;
                },
                LinkInput::TimedOut => {
                    self.crc = Crc32::new();
                    self.phase = PassPhase::SendFail;
                },
                _ => {},
            },
            PassPhase::SendFail => {
                if let LinkInput::Sent(_) = input {
                    self.phase = PassPhase::Publish(DfuStatus::Error);
                }
            },
            PassPhase::SendOk => {
                if let LinkInput::Sent(ok) = input {
                    self.phase = if *ok {
                        PassPhase::AwaitConfirm
                    } else {
                        PassPhase::Idle
                    };
                }
            },
            PassPhase::AwaitConfirm => match input {
                LinkInput::Received(SplitMessage::FirmwareUpdateConfirm) => {
                    self.phase = PassPhase::Publish(DfuStatus::Finished);
                },
                LinkInput::ReadError => {
                    self.phase = PassPhase::Idle;
                },
                LinkInput::TimedOut => {
                    self.phase = PassPhase::Publish(DfuStatus::Error);
                },
                _ => {},
            },
            PassPhase::Publish(_) => {
                if let LinkInput::Done = input {
                    self.phase = PassPhase::Idle;
                }
            },
            PassPhase::SendReset => {
                if let LinkInput::Sent(_) = input {
                    self.phase = PassPhase::Idle;
                }
            },
        }
    }
}

// ---------------------------------------------------------------------------
// Laws of a passthrough
// ---------------------------------------------------------------------------

/// Once a chunk has failed all its tries, neither writes nor `Finish` do anything
/// until the download is started again or the peripheral is reset.
pub proof fn law_an_aborted_download_forwards_nothing(m: PassModel, id: u8, cmd: DfuCmd)
    requires
        m.aborted,
        cmd is Write || cmd is Finish,
    ensures
        m.begin(id, cmd) == m,
{
}

/// The peripheral's copy is accepted only when the reported CRC-32 is the one of
/// everything forwarded since the download started.
pub proof fn law_only_a_matching_readback_is_accepted(m: PassModel, data: Seq<u8>, input: LinkInput)
    requires
        m.register == crc_run(0xFFFF_FFFF, data),
        m.phase != PassPhase::SendOk,
        m.next(input).phase == PassPhase::SendOk,
    ensures
        input == LinkInput::Received(SplitMessage::FirmwareCrcReport(crc_of(data))),
{
}

/// The answer of a link that loses nothing and a peripheral that stores what it
/// is sent, while a block is forwarded.
pub open spec fn faithful_block_answer(m: PassModel) -> LinkInput {
    match m.phase {
        PassPhase::SendChunk => LinkInput::Sent(true),
        PassPhase::AwaitAck => LinkInput::Received(
            SplitMessage::FirmwareChunkAck {
                offset: (m.base + m.index * SPLIT_CHUNK_SIZE) as u32,
                crc: crc_of(chunk_bytes(m.block, m.index)),
            },
        ),
        _ => LinkInput::Done,
    }
}

pub open spec fn faithful_block_run(m: PassModel, n: nat) -> PassModel
    decreases n,
{
    if n == 0 {
        m
    } else {
        faithful_block_run(m.next(faithful_block_answer(m)), (n - 1) as nat)
    }
}

proof fn lemma_faithful_block(m: PassModel, start: u32) -> (n: nat)
    requires
        m.wf(),
        m.phase == PassPhase::SendChunk,
        m.register == crc_run(
            start,
            m.block.subrange(0, chunk_end(m.block.len(), m.index) as int),
        ),
    ensures
        faithful_block_run(m, n).phase == PassPhase::Idle,
        faithful_block_run(m, n).register == crc_run(start, m.block),
        !faithful_block_run(m, n).aborted,
    decreases chunk_count(m.block.len()) - m.index,
{
    reveal_with_fuel(faithful_block_run, 3);
    lemma_chunk_bounds(m.block.len(), m.index);
    lemma_chunk_bounds(m.block.len(), m.index + 1);
    let m1 = m.next(LinkInput::Sent(true));
    let m2 = m1.next(faithful_block_answer(m1));
    assert(m2 == m1.at_chunk(m.index + 1));
    if m.index + 1 < chunk_count(m.block.len()) {
        let before = m.block.subrange(0, chunk_end(m.block.len(), m.index) as int);
        let bytes = chunk_bytes(m.block, m.index + 1);
        lemma_crc_run_concat(start, before, bytes);
        assert(before + bytes =~= m.block.subrange(
            0,
            chunk_end(m.block.len(), m.index + 1) as int,
        ));
        let k = lemma_faithful_block(m2, start);
        assert(faithful_block_run(m, (k + 2) as nat) == faithful_block_run(m1, (k + 1) as nat));
        (k + 2) as nat
    } else {
        assert(m.block.subrange(0, m.block.len() as int) =~= m.block);
        2
    }
}

/// Over a faithful link a block is forwarded to its end, and the CRC then covers
/// it on top of what came before.
pub proof fn law_a_faithful_link_takes_the_block(m: PassModel, id: u8, cmd: DfuCmd) -> (n: nat)
    requires
        m.wf(),
        m.phase == PassPhase::Idle,
        !m.aborted,
        cmd matches DfuCmd::Write(target, base, data) && target == DfuTarget::ForwardPeripheral(id)
            && offsets_fit(base, data@.len()),
    ensures
        faithful_block_run(m.begin(id, cmd), n).phase == PassPhase::Idle,
        !faithful_block_run(m.begin(id, cmd), n).aborted,
        faithful_block_run(m.begin(id, cmd), n).register == crc_run(
            m.register,
            cmd->Write_2@,
        ),
{
    let b = m.begin(id, cmd);
    let data = cmd->Write_2@;
    lemma_chunk_bounds(data.len(), 0);
    if data.len() == 0 {
        0
    } else {
        assert(chunk_bytes(data, 0) =~= data.subrange(0, chunk_end(data.len(), 0) as int));
        lemma_faithful_block(b, m.register)
    }
}

/// The state after some inputs.
pub open spec fn after_inputs(m: PassModel, inputs: Seq<LinkInput>) -> PassModel
    decreases inputs.len(),
{
    if inputs.len() == 0 {
        m
    } else {
        after_inputs(m, inputs.drop_last()).next(inputs.last())
    }
}

/// Whether an input is what a read comes to.
pub open spec fn is_read(input: LinkInput) -> bool {
    input is Received || input is ReadError || input is TimedOut
}

/// What some reads decide on a read-back whose CRC-32 should be `crc`: the first
/// report, read error or timeout counts, and only a report of `crc` is good. `None`
/// while none of these came.
pub open spec fn read_back_verdict(reads: Seq<LinkInput>, crc: u32) -> Option<bool>
    decreases reads.len(),
{
    if reads.len() == 0 {
        None
    } else {
        match read_back_verdict(reads.drop_last(), crc) {
            Some(verdict) => Some(verdict),
            None => match reads.last() {
                LinkInput::Received(SplitMessage::FirmwareCrcReport(c)) => Some(c == crc),
                LinkInput::ReadError | LinkInput::TimedOut => Some(false),
                _ => None,
            },
        }
    }
}

/// How some reads end the wait for a confirmation: with the confirmation, a read
/// error or a timeout, whichever is first. `None` while none of these came.
pub open spec fn confirm_verdict(reads: Seq<LinkInput>) -> Option<PassPhase>
    decreases reads.len(),
{
    if reads.len() == 0 {
        None
    } else {
        match confirm_verdict(reads.drop_last()) {
            Some(phase) => Some(phase),
            None => match reads.last() {
                LinkInput::Received(SplitMessage::FirmwareUpdateConfirm) => Some(
                    PassPhase::Publish(DfuStatus::Finished),
                ),
                LinkInput::ReadError => Some(PassPhase::Idle),
                LinkInput::TimedOut => Some(PassPhase::Publish(DfuStatus::Error)),
                _ => None,
            },
        }
    }
}

proof fn lemma_read_back(m: PassModel, reads: Seq<LinkInput>)
    requires
        m.phase == PassPhase::AwaitCrc,
        forall|i: int| 0 <= i < reads.len() ==> is_read(#[trigger] reads[i]),
    ensures
        after_inputs(m, reads) == match read_back_verdict(reads, !m.register) {
            None => m,
            Some(true) => PassModel { register: 0xFFFF_FFFF, phase: PassPhase::SendOk, ..m },
            Some(false) => PassModel { register: 0xFFFF_FFFF, phase: PassPhase::SendFail, ..m },
        },
    decreases reads.len(),
{
    if reads.len() > 0 {
        let earlier = reads.drop_last();
        assert forall|i: int| 0 <= i < earlier.len() implies is_read(#[trigger] earlier[i]) by {
            assert(earlier[i] == reads[i]);
        }
        lemma_read_back(m, earlier);
        assert(is_read(reads[reads.len() - 1]));
    }
}

proof fn lemma_confirmation(m: PassModel, reads: Seq<LinkInput>)
    requires
        m.phase == PassPhase::AwaitConfirm,
        forall|i: int| 0 <= i < reads.len() ==> is_read(#[trigger] reads[i]),
    ensures
        after_inputs(m, reads) == match confirm_verdict(reads) {
            None => m,
            Some(phase) => PassModel { phase, ..m },
        },
        confirm_verdict(reads) matches Some(phase) ==> phase == PassPhase::Idle
            || phase is Publish,
    decreases reads.len(),
{
    if reads.len() > 0 {
        let earlier = reads.drop_last();
        assert forall|i: int| 0 <= i < earlier.len() implies is_read(#[trigger] earlier[i]) by {
            assert(earlier[i] == reads[i]);
        }
        lemma_confirmation(m, earlier);
        assert(is_read(reads[reads.len() - 1]));
    }
}

/// The whole of `Finish`. The peripheral is told that the download is complete.
/// Whatever is read then, its copy is accepted exactly when the first report, before
/// any read error and timeout, carries the CRC-32 of everything forwarded since the
/// download started; otherwise it is rejected and an error is published. Success is
/// published exactly when a confirmation follows the acceptance, before any read
/// error and timeout.
pub proof fn law_finish_accepts_what_was_forwarded(
    m: PassModel,
    id: u8,
    forwarded: Seq<u8>,
    reads: Seq<LinkInput>,
    later: Seq<LinkInput>,
)
    requires
        m.phase == PassPhase::Idle,
        !m.aborted,
        m.register == crc_run(0xFFFF_FFFF, forwarded),
        forall|i: int| 0 <= i < reads.len() ==> is_read(#[trigger] reads[i]),
        forall|i: int| 0 <= i < later.len() ==> is_read(#[trigger] later[i]),
    ensures
        ({
            let finish = m.begin(id, DfuCmd::Finish(DfuTarget::ForwardPeripheral(id)));
            let reading = finish.next(LinkInput::Sent(true));
            let judged = after_inputs(reading, reads);
            let confirming = judged.next(LinkInput::Sent(true));
            let ended = after_inputs(confirming, later);
            let verdict = read_back_verdict(reads, crc_of(forwarded));
            &&& finish.wants(LinkAction::Send(SplitMessage::FirmwareUpdateComplete))
            &&& reading.wants(LinkAction::Read { seconds: 5 })
            &&& verdict is None ==> judged == reading
            &&& verdict == Some(true) <==> judged.wants(
                LinkAction::Send(SplitMessage::FirmwareCrcOk),
            )
            &&& verdict == Some(false) <==> judged.wants(
                LinkAction::Send(SplitMessage::FirmwareCrcFail),
            )
            &&& verdict == Some(false) ==> confirming.wants(LinkAction::Publish(DfuStatus::Error))
            &&& verdict == Some(true) ==> {
                &&& confirming.wants(LinkAction::Read { seconds: 2 })
                &&& ended.wants(LinkAction::Publish(DfuStatus::Finished)) <==> confirm_verdict(
                    later,
                ) == Some(PassPhase::Publish(DfuStatus::Finished))
                &&& confirm_verdict(later) is None ==> ended == confirming
                &&& confirm_verdict(later) matches Some(phase) ==> ended.phase == phase
            }
        }),
{
    let finish = m.begin(id, DfuCmd::Finish(DfuTarget::ForwardPeripheral(id)));
    let reading = finish.next(LinkInput::Sent(true));
    lemma_read_back(reading, reads);
    assert(!reading.register == crc_of(forwarded));
    let judged = after_inputs(reading, reads);
    if read_back_verdict(reads, crc_of(forwarded)) == Some(true) {
        lemma_confirmation(judged.next(LinkInput::Sent(true)), later);
    }
}

// ---------------------------------------------------------------------------
// Is an update needed?
// ---------------------------------------------------------------------------

/// What [`FirmwareCheck`] is at.
#[derive(Clone, Copy, Debug, PartialEq, Eq, Structural)]
pub enum CheckPhase {
    /// Ask the peripheral for its firmware's hash.
    SendQuery,
    /// Wait for the answer.
    AwaitHash,
    /// Send the firmware.
    Update,
    /// Nothing to do.
    Leave,
}

/// Where the check of a peripheral's firmware starts: nowhere without an image,
/// at once with a forced update, else with the question for the hash.
pub open spec fn check_start(expected: Option<u32>, policy: UpdatePolicy) -> CheckPhase {
    match (expected, policy) {
        (None, _) => CheckPhase::Leave,
        (Some(_), UpdatePolicy::Force) => CheckPhase::Update,
        (Some(_), UpdatePolicy::MatchHash) => CheckPhase::SendQuery,
    }
}

pub open spec fn check_next(phase: CheckPhase, expected: u32, input: LinkInput) -> CheckPhase {
    match phase {
        CheckPhase::SendQuery => match input {
            LinkInput::Sent(true) => CheckPhase::AwaitHash,
            LinkInput::Sent(false) => CheckPhase::Leave,
            _ => phase,
        },
        CheckPhase::AwaitHash => match input {
            LinkInput::Received(SplitMessage::FirmwareHashResponse(hash)) => if hash == expected {
                CheckPhase::Leave
            } else {
                CheckPhase::Update
            },
            LinkInput::ReadError | LinkInput::TimedOut => CheckPhase::Leave,
            _ => phase,
        },
        _ => phase,
    }
}

/// Checks once, when a link comes up, whether the peripheral's firmware is up to
/// date. Unless the update is forced, only an answer that differs calls for one: a
/// peripheral that does not answer in time is left alone, and a hash that it
/// announces later is for [`handle_proactive_hash`].
pub struct FirmwareCheck {
    pub phase: CheckPhase,
    pub expected: u32,
}

impl FirmwareCheck {
    /// `expected` is the CRC-32 of the registered image, if there is one.
    pub fn check_firmware_update(expected: Option<u32>, policy: UpdatePolicy) -> (r: Self)
        ensures
            r.phase == check_start(expected, policy),
            expected matches Some(hash) ==> r.expected == hash,
    {
        match expected {
            None => FirmwareCheck { phase: CheckPhase::Leave, expected: 0 },
            Some(hash) => match policy {
                UpdatePolicy::Force => FirmwareCheck { phase: CheckPhase::Update, expected: hash },
                UpdatePolicy::MatchHash => FirmwareCheck {
                    phase: CheckPhase::SendQuery,
                    expected: hash,
                },
            },
        }
    }

    /// What the link is to do now; [`LinkAction::Stop`] once the answer is known.
    pub fn action(&self) -> (r: LinkAction)
        ensures
            r == match self.phase {
                CheckPhase::SendQuery => LinkAction::Send(SplitMessage::FirmwareHashQuery),
                CheckPhase::AwaitHash => LinkAction::Read { seconds: 2 },
                _ => LinkAction::Stop,
            },
    {
        match self.phase {
            CheckPhase::SendQuery => LinkAction::Send(SplitMessage::FirmwareHashQuery),
            CheckPhase::AwaitHash => LinkAction::Read { seconds: 2 },
            _ => LinkAction::Stop,
        }
    }

    pub fn advance(&mut self, input: &LinkInput)
        ensures
            final(self).expected == old(self).expected,
            final(self).phase == check_next(old(self).phase, old(self).expected, *input),
    {
        match self.phase {
            CheckPhase::SendQuery => {
                if let LinkInput::Sent(ok) = input {
                    self.phase = if *ok {
                        CheckPhase::AwaitHash
                    } else {
                        CheckPhase::Leave
                    };
                }
            },
            CheckPhase::AwaitHash => match input {
                LinkInput::Received(SplitMessage::FirmwareHashResponse(hash)) => {
                    self.phase = if *hash == self.expected {
                        CheckPhase::Leave
                    } else {
                        CheckPhase::Update
                    };
                },
                LinkInput::ReadError => {
                    self.phase = CheckPhase::Leave;
                },
                LinkInput::TimedOut => {
                    self.phase = CheckPhase::Leave;
                },
                _ => {},
            },
            _ => {},
        }
    }
}

/// Unless the update is forced, firmware is sent only once the peripheral's own hash
/// was seen to differ from the image's.
pub proof fn law_only_a_differing_hash_calls_for_an_update(
    phase: CheckPhase,
    expected: u32,
    input: LinkInput,
)
    requires
        phase == CheckPhase::SendQuery || phase == CheckPhase::AwaitHash,
    ensures
        check_next(phase, expected, input) == CheckPhase::Update <==> phase == CheckPhase::AwaitHash
            && (input matches LinkInput::Received(SplitMessage::FirmwareHashResponse(hash))
            && hash != expected),
{
}

/// Whether a hash that a peripheral announced by itself calls for an update:
/// there is an image, and its hash is another.
pub fn handle_proactive_hash(expected: Option<u32>, hash: u32) -> (r: bool)
    ensures
        r == (expected matches Some(e) && e != hash),
{
    match expected {
        Some(e) => e != hash,
        None => false,
    }
}

// ---------------------------------------------------------------------------
// Laws
// ---------------------------------------------------------------------------

/// Commands are forwarded to the one peripheral that they name: every other leaves the download
/// as it is. A start forgets what came before and starts the CRC-32 afresh, a reset forgets a
/// failed download, and neither loses the other's meaning.
pub proof fn law_only_its_own_commands_reach_a_peripheral(
    m: PassModel,
    id: u8,
    other: u8,
    cmd: DfuCmd,
)
    ensures
        cmd.spec_target() matches Some(DfuTarget::ForwardPeripheral(n)) && n != id ==> m.begin(
            id,
            cmd,
        ) == m,
        cmd.spec_target() is None || cmd.spec_target() == Some(DfuTarget::Central)
            || cmd.spec_target() == Some(DfuTarget::Local) ==> m.begin(id, cmd) == m,
        ({
            let started = m.begin(id, DfuCmd::Start(DfuTarget::ForwardPeripheral(id)));
            &&& started.register == 0xFFFF_FFFF
            &&& !started.aborted
            &&& started.phase == m.phase
        }),
        ({
            let reset = m.begin(id, DfuCmd::SystemReset(DfuTarget::ForwardPeripheral(id)));
            &&& !reset.aborted
            &&& reset.wants(LinkAction::Send(SplitMessage::SystemReset))
            &&& reset.register == m.register
        }),
        !m.aborted ==> m.begin(id, DfuCmd::Finish(DfuTarget::ForwardPeripheral(id))).wants(
            LinkAction::Send(SplitMessage::FirmwareUpdateComplete),
        ),
{
}

/// A chunk enters the CRC-32 once, however often it is sent. It is sent up to three times; when
/// the third try has failed the download is given up, and it is told so.
pub proof fn law_a_chunk_is_tried_three_times(m: PassModel, input: LinkInput)
    requires
        m.wf(),
        m.phase == PassPhase::AwaitAck,
        input is ReadError || input is TimedOut,
    ensures
        m.next(input).register == m.register,
        m.next(input).index == m.index,
        m.tries < 2 ==> m.next(input).phase == PassPhase::SendChunk && m.next(input).tries
            == m.tries + 1 && !m.next(input).aborted,
        m.tries == 2 ==> m.next(input).aborted && m.next(input).wants(LinkAction::Abort),
{
}

/// The wait for an answer ends without one on a message that cannot be sent, and an input that
/// answers nothing changes nothing.
pub proof fn law_a_dead_link_ends_a_command(m: PassModel, input: LinkInput)
    ensures
        m.phase == PassPhase::SendChunk || m.phase == PassPhase::SendComplete || m.phase
            == PassPhase::SendOk ==> m.next(LinkInput::Sent(false)).phase == PassPhase::Idle,
        m.phase == PassPhase::Idle ==> m.next(input) == m,
        m.phase == PassPhase::SendChunk || m.phase == PassPhase::SendComplete || m.phase
            == PassPhase::SendOk || m.phase == PassPhase::SendFail || m.phase
            == PassPhase::SendReset ==> (input !is Sent ==> m.next(input) == m),
        m.phase == PassPhase::Abort || m.phase is Publish ==> (if input is Done {
            m.next(input).phase == PassPhase::Idle
        } else {
            m.next(input) == m
        }),
        m.next(input).block == m.block && m.next(input).base == m.base,
{
}

/// A check asks for nothing without an image, updates at once where that is forced, and asks
/// for the hash otherwise; a peripheral that cannot be asked, or does not answer, is left alone.
pub proof fn law_a_silent_peripheral_is_left_alone(hash: u32, expected: u32, policy: UpdatePolicy)
    ensures
        check_start(None, policy) == CheckPhase::Leave,
        check_start(Some(expected), UpdatePolicy::Force) == CheckPhase::Update,
        check_start(Some(expected), UpdatePolicy::MatchHash) == CheckPhase::SendQuery,
        check_next(CheckPhase::SendQuery, expected, LinkInput::Sent(true))
            == CheckPhase::AwaitHash,
        check_next(CheckPhase::SendQuery, expected, LinkInput::Sent(false)) == CheckPhase::Leave,
        check_next(CheckPhase::AwaitHash, expected, LinkInput::TimedOut) == CheckPhase::Leave,
        check_next(CheckPhase::AwaitHash, expected, LinkInput::ReadError) == CheckPhase::Leave,
        check_next(
            CheckPhase::AwaitHash,
            expected,
            LinkInput::Received(SplitMessage::FirmwareHashResponse(expected)),
        ) == CheckPhase::Leave,
{
}

} // verus!
