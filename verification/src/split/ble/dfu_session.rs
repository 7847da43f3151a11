//! A firmware download straight into a peripheral, over its own GATT service.
//!
//! The service is active only when the peripheral could not find its central. It
//! answers the few requests that a host needs for a download.

use vstd::prelude::*;
use crate::ble::conn::ConnParams;
use crate::bounded::{NotifyQueue, NOTIFY_QUEUE_SIZE, NOTIFY_SIZE};
use crate::crc32::crc_run;
use crate::host::dfu::{dispatched, no_events, DfuEvents, DfuRynkState};
use crate::protocol::command::Cmd;
use crate::protocol::deframer::{first_zero, message_in, next_message, Deframer};
use crate::protocol::dfu::{
    offset_and_data, one_number, two_numbers, DfuWriteRequest, RYNK_MAX_PAYLOAD_SIZE,
};
use crate::protocol::frame::{
    encode_frame, encode_result, frame_bytes, header_of, result_payload, RynkError, RynkHeader,
    RYNK_HEADER_SIZE,
};
use crate::types::DfuStatus;

verus! {

/// An answer that never changes. Its bytes are those of the host protocol.
#[derive(Clone, Copy, Debug, PartialEq, Eq, Structural)]
pub enum FixedReply {
    /// The current version of the protocol.
    Version,
    /// What the device can do; nothing but this.
    Capabilities { dfu_enabled: bool, is_split: bool, ble_enabled: bool, max_payload_size: u16 },
    /// Whether the device is locked; no key position is listed.
    LockStatus { locked: bool, unlocking: bool, remaining_keys: u8 },
}

/// The fixed answer to a command, if it has one: the current version, a split device
/// with BLE that takes downloads, and an open lock.
pub open spec fn fixed_answer(cmd: Cmd) -> Option<FixedReply> {
    match cmd {
        Cmd::GetVersion => Some(FixedReply::Version),
        Cmd::GetCapabilities => Some(
            FixedReply::Capabilities {
                dfu_enabled: true,
                is_split: true,
                ble_enabled: true,
                max_payload_size: RYNK_MAX_PAYLOAD_SIZE as u16,
            },
        ),
        Cmd::GetLockStatus => Some(
            FixedReply::LockStatus { locked: false, unlocking: false, remaining_keys: 0 },
        ),
        _ => None,
    }
}

/// The fixed answer to a command, if it has one.
pub fn fixed_reply(cmd: Cmd) -> (r: Option<FixedReply>)
    ensures
        r == match cmd {
            Cmd::GetVersion => Some(FixedReply::Version),
            Cmd::GetCapabilities => Some(
                FixedReply::Capabilities {
                    dfu_enabled: true,
                    is_split: true,
                    ble_enabled: true,
                    max_payload_size: 2048,
                },
            ),
            Cmd::GetLockStatus => Some(
                FixedReply::LockStatus { locked: false, unlocking: false, remaining_keys: 0 },
            ),
            _ => None,
        },
        r == fixed_answer(cmd),
{
    match cmd {
        Cmd::GetVersion => Some(FixedReply::Version),
        Cmd::GetCapabilities => Some(
            FixedReply::Capabilities {
                dfu_enabled: true,
                is_split: true,
                ble_enabled: true,
                max_payload_size: RYNK_MAX_PAYLOAD_SIZE as u16,
            },
        ),
        Cmd::GetLockStatus => Some(
            FixedReply::LockStatus { locked: false, unlocking: false, remaining_keys: 0 },
        ),
        _ => None,
    }
}

/// Whether a payload writes beyond what 32 bits can address.
pub open spec fn beyond_address_space(payload: Seq<u8>) -> bool {
    match offset_and_data(payload) {
        Some((offset, data)) => offset + data.len() > u32::MAX,
        None => false,
    }
}

/// The state of a download, as far as answers depend on it.
pub struct DfuModel {
    pub register: u32,
    pub offset: u32,
}

pub open spec fn model_of(s: DfuRynkState) -> DfuModel {
    DfuModel { register: s.running_crc.register(), offset: s.current_offset }
}

pub open spec fn command_of(message: Seq<u8>) -> u16 {
    header_of(message)->Some_0.cmd
}

pub open spec fn payload_of(message: Seq<u8>) -> Seq<u8> {
    message.subrange(RYNK_HEADER_SIZE as int, message.len() as int)
}

/// The command with a number.
pub open spec fn named(raw: u16) -> Cmd {
    if raw == 0x0001 {
        Cmd::GetVersion
    } else if raw == 0x0002 {
        Cmd::GetCapabilities
    } else if raw == 0x0003 {
        Cmd::GetLockStatus
    } else if raw == 0x0D00 {
        Cmd::DfuStart
    } else if raw == 0x0D01 {
        Cmd::DfuWrite
    } else if raw == 0x0D02 {
        Cmd::DfuCrcSync
    } else if raw == 0x0D03 {
        Cmd::DfuCrcRewind
    } else if raw == 0x0D04 {
        Cmd::DfuVerify
    } else if raw == 0x0D05 {
        Cmd::DfuFinish
    } else if raw == 0x0D06 {
        Cmd::DfuReset
    } else {
        Cmd::Other(raw)
    }
}

/// Whether a command belongs to a download.
pub open spec fn is_dfu(cmd: Cmd) -> bool {
    match cmd {
        Cmd::DfuStart
        | Cmd::DfuWrite
        | Cmd::DfuCrcSync
        | Cmd::DfuCrcRewind
        | Cmd::DfuVerify
        | Cmd::DfuFinish
        | Cmd::DfuReset => true,
        _ => false,
    }
}

/// The outcome of a DFU command.
pub open spec fn dfu_result(m: DfuModel, cmd: Cmd, payload: Seq<u8>, write_failed: bool) -> Result<
    (),
    RynkError,
> {
    let refused = Err::<(), RynkError>(RynkError::Internal);
    let value = !m.register;
    match cmd {
        Cmd::DfuWrite => if offset_and_data(payload) is None || write_failed
            || beyond_address_space(payload) {
            refused
        } else {
            Ok(())
        },
        Cmd::DfuCrcSync | Cmd::DfuVerify => if one_number(payload) == Some(value) {
            Ok(())
        } else {
            refused
        },
        Cmd::DfuCrcRewind => if two_numbers(payload) is None {
            refused
        } else {
            Ok(())
        },
        _ => Ok(()),
    }
}

/// The state after a DFU command.
pub open spec fn dfu_next(m: DfuModel, cmd: Cmd, payload: Seq<u8>, write_failed: bool) -> DfuModel {
    match cmd {
        Cmd::DfuStart => DfuModel { register: 0xFFFF_FFFF, offset: 0 },
        Cmd::DfuWrite => if dfu_result(m, cmd, payload, write_failed) is Ok {
            let (offset, data) = offset_and_data(payload)->Some_0;
            DfuModel {
                register: crc_run(m.register, data),
                offset: (offset + data.len()) as u32,
            }
        } else {
            m
        },
        Cmd::DfuCrcRewind => match two_numbers(payload) {
            Some((offset, crc)) => DfuModel { register: !crc, offset },
            None => m,
        },
        _ => m,
    }
}

/// The outcome of a message that has no fixed answer.
pub open spec fn outcome(m: DfuModel, message: Seq<u8>, write_failed: bool) -> Result<
    (),
    RynkError,
> {
    let cmd = named(command_of(message));
    if is_dfu(cmd) {
        dfu_result(m, cmd, payload_of(message), write_failed)
    } else {
        Err(RynkError::UnknownCmd)
    }
}

/// The payload of the answer to a message. `encoded` are the bytes of the fixed
/// answers.
pub open spec fn reply_payload(
    m: DfuModel,
    message: Seq<u8>,
    write_failed: bool,
    encoded: spec_fn(FixedReply) -> Seq<u8>,
) -> Seq<u8> {
    match fixed_answer(named(command_of(message))) {
        Some(reply) => encoded(reply),
        None => result_payload(outcome(m, message, write_failed)),
    }
}

/// The answer to a message: it carries the header of the request.
pub open spec fn reply_frame(
    m: DfuModel,
    message: Seq<u8>,
    write_failed: bool,
    encoded: spec_fn(FixedReply) -> Seq<u8>,
) -> Seq<u8> {
    frame_bytes(header_of(message)->Some_0, reply_payload(m, message, write_failed, encoded))
}

/// The state after a message.
pub open spec fn next_model(m: DfuModel, message: Seq<u8>, write_failed: bool) -> DfuModel {
    let cmd = named(command_of(message));
    if is_dfu(cmd) {
        dfu_next(m, cmd, payload_of(message), write_failed)
    } else {
        m
    }
}

/// Whether `events` are what a message makes known.
pub open spec fn message_events(
    m: DfuModel,
    message: Seq<u8>,
    write_failed: bool,
    events: DfuEvents,
) -> bool {
    let cmd = named(command_of(message));
    let payload = payload_of(message);
    if !is_dfu(cmd) || dfu_result(m, cmd, payload, write_failed) is Err {
        no_events(events)
    } else {
        exists|s: DfuRynkState, t: DfuRynkState|
            model_of(s) == m && #[trigger] dispatched(
                s,
                cmd,
                payload,
                write_failed,
                t,
                Ok(()),
                events,
            )
    }
}

/// A queue after one more answer: one that is too long, or that finds the queue
/// full, is dropped.
pub open spec fn queued(queue: Seq<Seq<u8>>, frame: Seq<u8>) -> Seq<Seq<u8>> {
    if frame.len() <= NOTIFY_SIZE && queue.len() < NOTIFY_QUEUE_SIZE {
        queue.push(frame)
    } else {
        queue
    }
}

proof fn lemma_next_message_shrinks(s: Seq<u8>)
    ensures
        next_message(s).0 is Some ==> next_message(s).1.len() < s.len(),
        next_message(s).1.len() <= s.len(),
        next_message(s).0 matches Some(m) ==> m.len() >= RYNK_HEADER_SIZE,
    decreases s.len(),
{
    crate::protocol::deframer::lemma_first_zero_bounds(s);
    let k = first_zero(s);
    if k < s.len() && message_in(s.subrange(0, k)) is None {
        lemma_next_message_shrinks(s.subrange(k + 1, s.len() as int));
    }
}

/// Everything that a session goes through while whole messages are left.
pub struct SessionState {
    pub kept: Seq<u8>,
    pub model: DfuModel,
    pub queue: Seq<Seq<u8>>,
}

/// The session after one more message, if a whole one is left.
pub open spec fn step(
    a: SessionState,
    write_failed: bool,
    encoded: spec_fn(FixedReply) -> Seq<u8>,
) -> SessionState {
    let (message, rest) = next_message(a.kept);
    match message {
        None => SessionState { kept: rest, ..a },
        Some(m) => SessionState {
            kept: rest,
            model: next_model(a.model, m, write_failed),
            queue: queued(a.queue, reply_frame(a.model, m, write_failed, encoded)),
        },
    }
}

/// The session after one step for each of `write_failed`, which tells whether a write
/// had failed when the step was made.
pub open spec fn steps(
    a: SessionState,
    write_failed: Seq<bool>,
    encoded: spec_fn(FixedReply) -> Seq<u8>,
) -> SessionState
    decreases write_failed.len(),
{
    if write_failed.len() == 0 {
        a
    } else {
        steps(step(a, write_failed[0], encoded), write_failed.drop_first(), encoded)
    }
}

/// What follows a message.
#[derive(Debug)]
pub enum DfuStep {
    /// No whole message is left: what was queued goes out.
    Done,
    /// The answer is queued; this is to be made known before the next message.
    Answered(DfuEvents),
    /// The answer is fixed: its bytes go to [`queue_reply`], with this header.
    Encode { header: RynkHeader, reply: FixedReply },
}

/// Queues an answer of the given payload.
pub fn queue_reply(queue: &mut NotifyQueue, header: RynkHeader, payload: &[u8])
    ensures
        final(queue)@ == queued(old(queue)@, frame_bytes(header, payload@)),
{
    let frame = encode_frame(header, payload);
    let _ = queue.push(frame.as_slice());
}

/// Parameters for the link while a download runs: 7.5 ms interval, no latency and a
/// supervision timeout of 20 s.
pub fn dfu_conn_params() -> (r: ConnParams)
    ensures
        r == (ConnParams {
            min_interval_us: 7_500,
            max_interval_us: 7_500,
            max_latency: 0,
            supervision_timeout_us: 20_000_000,
        }),
        r.sound(),
{
    ConnParams {
        min_interval_us: 7_500,
        max_interval_us: 7_500,
        max_latency: 0,
        supervision_timeout_us: 20_000_000,
    }
}

/// Whether a download that has come to this state asks for [`dfu_conn_params`].
pub fn wants_dfu_conn_params(status: DfuStatus) -> (r: bool)
    ensures
        r == (status is Started),
{
    match status {
        DfuStatus::Started => true,
        _ => false,
    }
}

/// One download session.
pub struct DfuSession {
    deframer: Deframer,
    state: DfuRynkState,
}

impl DfuSession {
    pub closed spec fn kept(&self) -> Seq<u8> {
        self.deframer.kept()
    }

    pub closed spec fn model(&self) -> DfuModel {
        model_of(self.state)
    }

    pub closed spec fn wf(&self) -> bool {
        self.deframer.wf()
    }

    /// A session goes on with the CRC state that there is.
    pub fn new(state: DfuRynkState) -> (r: Self)
        ensures
            r.wf(),
            r.kept() == Seq::<u8>::empty(),
            r.model() == model_of(state),
    {
        DfuSession { deframer: Deframer::new(), state }
    }

    pub fn state(&self) -> (r: DfuRynkState)
        ensures
            model_of(r) == self.model(),
    {
        self.state
    }

    /// The host wrote `data`.
    pub fn take_in(&mut self, data: &[u8])
        requires
            old(self).wf(),
        ensures
            final(self).wf(),
            taken_in(old(self).kept(), data@, final(self).kept()),
            final(self).model() == old(self).model(),
    {
        let _ = self.deframer.commit(data);
    }

    /// Works off the next whole message. Its answer is queued, unless it is a fixed
    /// one, whose bytes are then awaited.
    pub fn run_dfu_session(&mut self, write_failed: bool, queue: &mut NotifyQueue) -> (r: DfuStep)
        requires
            old(self).wf(),
        ensures
            final(self).wf(),
            ({
                let (message, rest) = next_message(old(self).kept());
                &&& final(self).kept() == rest
                &&& match message {
                    None => {
                        &&& r is Done
                        &&& final(self).model() == old(self).model()
                        &&& final(queue)@ == old(queue)@
                    },
                    Some(m) => {
                        let header = header_of(m)->Some_0;
                        &&& header_of(m) is Some
                        &&& final(self).model() == next_model(old(self).model(), m, write_failed)
                        &&& match fixed_answer(named(header.cmd)) {
                            Some(reply) => r == (DfuStep::Encode { header, reply })
                                && final(queue)@ == old(queue)@,
                            None => {
                                &&& r matches DfuStep::Answered(events) && message_events(
                                    old(self).model(),
                                    m,
                                    write_failed,
                                    events,
                                )
                                &&& final(queue)@ == queued(
                                    old(queue)@,
                                    frame_bytes(
                                        header,
                                        result_payload(
                                            outcome(old(self).model(), m, write_failed),
                                        ),
                                    ),
                                )
                            },
                        }
                    },
                }
            }),
            // With a fixed answer's bytes queued, this is one step of the session.
            forall|encoded: spec_fn(FixedReply) -> Seq<u8>| #[trigger]
                step(
                    SessionState {
                        kept: old(self).kept(),
                        model: old(self).model(),
                        queue: old(queue)@,
                    },
                    write_failed,
                    encoded,
                ) == (SessionState {
                    kept: final(self).kept(),
                    model: final(self).model(),
                    queue: match r {
                        DfuStep::Encode { header, reply } => queued(
                            final(queue)@,
                            frame_bytes(header, encoded(reply)),
                        ),
                        _ => final(queue)@,
                    },
                }),
    {
        proof {
            lemma_next_message_shrinks(self.kept());
        }
        let message = match self.deframer.next() {
            None => return DfuStep::Done,
            Some(message) => message,
        };
        let header = match RynkHeader::parse(message.as_slice()) {
            Some(h) => h,
            None => return DfuStep::Done,
        };
        let payload = vstd::slice::slice_subrange(
            message.as_slice(),
            RYNK_HEADER_SIZE,
            message.len(),
        );
        let cmd = Cmd::from_raw(header.cmd);
        assert(cmd == named(header.cmd));
        if let Some(reply) = fixed_reply(cmd) {
            return DfuStep::Encode { header, reply };
        }
        let none = DfuEvents { cmds: Vec::new(), status: None };
        let (result, events) = match cmd {
            Cmd::Other(_) => (Err(RynkError::UnknownCmd), none),
            _ => {
                let mut beyond: bool = false;
                if let Cmd::DfuWrite = cmd {
                    beyond = is_beyond(payload);
                }
                if beyond {
                    (Err(RynkError::Internal), none)
                } else {
                    let ghost before = self.state;
                    let (result, events) = self.state.dispatch_dfu_cmd(cmd, payload, write_failed);
                    proof {
                        lemma_dispatched(
                            before,
                            cmd,
                            payload@,
                            write_failed,
                            self.state,
                            result,
                            events,
                        );
                    }
                    (result, events)
                }
            },
        };
        queue_reply(queue, header, encode_result(result).as_slice());
        DfuStep::Answered(events)
    }
}

/// What a session keeps once it took `data` in: as much as there is room for.
pub open spec fn taken_in(before: Seq<u8>, data: Seq<u8>, after: Seq<u8>) -> bool {
    let base = if before.len() == crate::protocol::deframer::RYNK_BUFFER_SIZE && first_zero(before)
        == crate::protocol::deframer::RYNK_BUFFER_SIZE {
        Seq::empty()
    } else {
        before
    };
    let room = crate::protocol::deframer::RYNK_BUFFER_SIZE - base.len();
    after == base + data.subrange(
        0,
        if data.len() <= room {
            data.len() as int
        } else {
            room
        },
    )
}

fn is_beyond(payload: &[u8]) -> (r: bool)
    ensures
        r == beyond_address_space(payload@),
{
    match DfuWriteRequest::decode(payload) {
        Some(req) => req.offset as u64 + req.data.as_slice().len() as u64 > u32::MAX as u64,
        None => false,
    }
}

proof fn lemma_dispatched(
    s: DfuRynkState,
    cmd: Cmd,
    payload: Seq<u8>,
    write_failed: bool,
    t: DfuRynkState,
    r: Result<(), RynkError>,
    e: DfuEvents,
)
    requires
        is_dfu(cmd),
        cmd == Cmd::DfuWrite ==> !beyond_address_space(payload),
        dispatched(s, cmd, payload, write_failed, t, r, e),
    ensures
        r == dfu_result(model_of(s), cmd, payload, write_failed),
        model_of(t) == dfu_next(model_of(s), cmd, payload, write_failed),
        r is Err ==> no_events(e),
{
    if cmd == Cmd::DfuCrcRewind {
        let reg = t.running_crc.register();
        assert(!(!reg) == reg) by (bit_vector);
    }
}

// ---------------------------------------------------------------------------
// Laws
// ---------------------------------------------------------------------------

/// The bytes of some requests, framed one after the other.
pub open spec fn frames_of(requests: Seq<(RynkHeader, Seq<u8>)>) -> Seq<u8>
    decreases requests.len(),
{
    if requests.len() == 0 {
        Seq::empty()
    } else {
        frame_bytes(requests[0].0, requests[0].1) + frames_of(requests.drop_first())
    }
}

/// The state after some requests, one entry of `write_failed` for each.
pub open spec fn model_after(
    m: DfuModel,
    requests: Seq<(RynkHeader, Seq<u8>)>,
    write_failed: Seq<bool>,
) -> DfuModel
    decreases requests.len(),
{
    if requests.len() == 0 {
        m
    } else {
        model_after(
            next_model(m, requests[0].0.bytes() + requests[0].1, write_failed[0]),
            requests.drop_first(),
            write_failed.drop_first(),
        )
    }
}

/// The answers to some requests: each on its request's own header, with what the state
/// before it calls for.
pub open spec fn replies_to(
    m: DfuModel,
    requests: Seq<(RynkHeader, Seq<u8>)>,
    write_failed: Seq<bool>,
    encoded: spec_fn(FixedReply) -> Seq<u8>,
) -> Seq<Seq<u8>>
    decreases requests.len(),
{
    if requests.len() == 0 {
        Seq::empty()
    } else {
        let message = requests[0].0.bytes() + requests[0].1;
        seq![
            frame_bytes(
                requests[0].0,
                reply_payload(m, message, write_failed[0], encoded),
            ),
        ] + replies_to(
            next_model(m, message, write_failed[0]),
            requests.drop_first(),
            write_failed.drop_first(),
            encoded,
        )
    }
}

/// Every whole request is answered once, in order and on its own header: as many steps
/// as there are requests use them up, and queue their answers, as long as the queue has
/// room and each answer fits a notification.
pub proof fn law_requests_are_answered_in_order(
    requests: Seq<(RynkHeader, Seq<u8>)>,
    model: DfuModel,
    queue: Seq<Seq<u8>>,
    write_failed: Seq<bool>,
    encoded: spec_fn(FixedReply) -> Seq<u8>,
)
    requires
        write_failed.len() == requests.len(),
        queue.len() + requests.len() <= NOTIFY_QUEUE_SIZE,
        forall|i: int|
            0 <= i < requests.len() ==> (#[trigger] replies_to(
                model,
                requests,
                write_failed,
                encoded,
            )[i]).len() <= NOTIFY_SIZE,
    ensures
        steps(
            SessionState { kept: frames_of(requests), model, queue },
            write_failed,
            encoded,
        ) == (SessionState {
            kept: Seq::<u8>::empty(),
            model: model_after(model, requests, write_failed),
            queue: queue + replies_to(model, requests, write_failed, encoded),
        }),
        replies_to(model, requests, write_failed, encoded).len() == requests.len(),
        next_message(Seq::<u8>::empty()).0 is None,
    decreases requests.len(),
{
    assert(first_zero(Seq::<u8>::empty()) == 0);
    let all = replies_to(model, requests, write_failed, encoded);
    if requests.len() == 0 {
        assert(queue + all =~= queue);
    } else {
        let (header, payload) = requests[0];
        let message = header.bytes() + payload;
        let rest = requests.drop_first();
        let flags = write_failed.drop_first();
        crate::protocol::deframer::law_a_frame_comes_out_as_it_went_in(
            header,
            payload,
            frames_of(rest),
        );
        let next = next_model(model, message, write_failed[0]);
        let reply = reply_frame(model, message, write_failed[0], encoded);
        let others = replies_to(next, rest, flags, encoded);
        assert(all == seq![reply] + others);
        lemma_as_many_replies(next, rest, flags, encoded);
        assert(all[0] == reply);
        assert forall|i: int| 0 <= i < rest.len() implies (#[trigger] others[i]).len()
            <= NOTIFY_SIZE by {
            assert(others[i] == all[i + 1]);
        }
        law_requests_are_answered_in_order(rest, next, queue.push(reply), flags, encoded);
        assert(queue.push(reply) + others =~= queue + all);
    }
}

proof fn lemma_as_many_replies(
    m: DfuModel,
    requests: Seq<(RynkHeader, Seq<u8>)>,
    write_failed: Seq<bool>,
    encoded: spec_fn(FixedReply) -> Seq<u8>,
)
    ensures
        replies_to(m, requests, write_failed, encoded).len() == requests.len(),
    decreases requests.len(),
{
    if requests.len() > 0 {
        lemma_as_many_replies(
            next_model(m, requests[0].0.bytes() + requests[0].1, write_failed[0]),
            requests.drop_first(),
            write_failed.drop_first(),
            encoded,
        );
    }
}

/// Each command of a download has its own number, and every other number is no such command.
pub proof fn law_commands_have_their_own_numbers(raw: u16, other: u16)
    ensures
        named(0x0001) is GetVersion,
        named(0x0002) is GetCapabilities,
        named(0x0003) is GetLockStatus,
        named(0x0D00) is DfuStart,
        named(0x0D01) is DfuWrite,
        named(0x0D02) is DfuCrcSync,
        named(0x0D03) is DfuCrcRewind,
        named(0x0D04) is DfuVerify,
        named(0x0D05) is DfuFinish,
        named(0x0D06) is DfuReset,
        named(raw) == named(other) ==> raw == other,
        is_dfu(named(raw)) <==> 0x0D00 <= raw <= 0x0D06,
        fixed_answer(named(raw)) is Some <==> 1 <= raw <= 3,
{
}

/// The state and the outcome of a message are those of its command: what is answered is what
/// the command came to, and the state is what the command left.
pub proof fn law_the_answer_tells_what_the_command_came_to(
    s: DfuRynkState,
    cmd: Cmd,
    payload: Seq<u8>,
    write_failed: bool,
    t: DfuRynkState,
    r: Result<(), RynkError>,
    e: DfuEvents,
)
    requires
        dispatched(s, cmd, payload, write_failed, t, r, e),
        is_dfu(cmd),
        cmd is DfuWrite ==> !beyond_address_space(payload),
    ensures
        dfu_result(model_of(s), cmd, payload, write_failed) == r,
        dfu_next(model_of(s), cmd, payload, write_failed) == model_of(t),
{
    if cmd is DfuCrcRewind && two_numbers(payload) is Some {
        let register = t.running_crc.register();
        let crc = two_numbers(payload)->Some_0.1;
        assert(!(!register) == register) by (bit_vector);
    }
}

/// A write beyond what 32 bits can address is refused, and leaves the download as it is.
pub proof fn law_a_write_beyond_the_address_space_is_refused(
    m: DfuModel,
    payload: Seq<u8>,
    offset: u32,
    data: Seq<u8>,
)
    requires
        offset_and_data(payload) == Some((offset, data)),
    ensures
        dfu_result(m, Cmd::DfuWrite, payload, false) is Ok <==> offset + data.len()
            <= 0xFFFF_FFFF,
        dfu_result(m, Cmd::DfuWrite, payload, false) is Err ==> dfu_next(
            m,
            Cmd::DfuWrite,
            payload,
            false,
        ) == m,
        dfu_result(m, Cmd::DfuWrite, payload, true) is Err,
        dfu_next(m, Cmd::DfuWrite, payload, true) == m,
{
}

/// An answer is queued behind those that wait, or dropped: where it is longer than 244 bytes, or
/// four wait already. Those that wait stay as they are.
pub proof fn law_answers_are_queued_in_order(queue: Seq<Seq<u8>>, frame: Seq<u8>, i: int)
    requires
        queue.len() <= 4,
    ensures
        queued(queue, frame).len() <= 4,
        0 <= i < queue.len() ==> queued(queue, frame)[i] == queue[i],
        queued(queue, frame).len() > queue.len() <==> frame.len() <= 244 && queue.len() < 4,
        frame.len() <= 244 && queue.len() < 4 ==> queued(queue, frame).last() == frame,
{
}

/// What the host writes is kept behind what is kept already, as far as there is room for 2304
/// bytes in all; a full buffer without an end of a frame in it is given up first.
pub proof fn law_what_the_host_writes_is_kept(
    before: Seq<u8>,
    data: Seq<u8>,
    after: Seq<u8>,
    i: int,
)
    requires
        before.len() <= 2304,
        taken_in(before, data, after),
    ensures
        after.len() <= 2304,
        before.len() + data.len() <= 2304 && before.len() < 2304 ==> after == before + data,
        before.len() < 2304 && 0 <= i < before.len() ==> after[i] == before[i],
        before.len() < 2304 && before.len() + data.len() > 2304 ==> after.len() == 2304,
{
    if before.len() < 2304 && before.len() + data.len() <= 2304 {
        assert(data.subrange(0, data.len() as int) =~= data);
    }
}

/// A command that goes out by its number comes in as itself.
pub proof fn law_a_command_is_named_by_its_number(cmd: Cmd, raw: u16)
    requires
        cmd.canonical(),
    ensures
        named(cmd.spec_raw()) == cmd,
        named(raw).spec_raw() == raw,
        named(raw).canonical(),
{
}

/// A message with a DFU command comes to what its command does; any other leaves the download as
/// it is, and one that has no fixed answer either is answered as unknown.
pub proof fn law_only_dfu_commands_reach_the_download(
    m: DfuModel,
    message: Seq<u8>,
    write_failed: bool,
    encoded: spec_fn(FixedReply) -> Seq<u8>,
)
    ensures
        ({
            let raw = command_of(message);
            if 0x0D00 <= raw <= 0x0D06 {
                &&& outcome(m, message, write_failed) == dfu_result(
                    m,
                    named(raw),
                    payload_of(message),
                    write_failed,
                )
                &&& next_model(m, message, write_failed) == dfu_next(
                    m,
                    named(raw),
                    payload_of(message),
                    write_failed,
                )
                &&& reply_payload(m, message, write_failed, encoded) == result_payload(
                    outcome(m, message, write_failed),
                )
            } else {
                &&& next_model(m, message, write_failed) == m
                &&& raw == 0 || raw > 3 ==> outcome(m, message, write_failed) == Err::<(), _>(
                    RynkError::UnknownCmd,
                ) && reply_payload(m, message, write_failed, encoded) == result_payload(
                    Err(RynkError::UnknownCmd),
                )
                &&& 1 <= raw <= 3 ==> fixed_answer(named(raw)) is Some && reply_payload(
                    m,
                    message,
                    write_failed,
                    encoded,
                ) == encoded(fixed_answer(named(raw))->0)
            }
        }),
{
}

/// The fixed answers are the same whatever state the download is in: a split device with BLE that
/// takes downloads of 2048 bytes a message, and a lock that is open.
pub proof fn law_fixed_answers_are_those_of_an_open_device(raw: u16)
    ensures
        fixed_answer(named(raw)) is Some && fixed_answer(named(raw))->0 is Version <==> raw == 1,
        fixed_answer(named(raw)) is Some && fixed_answer(named(raw))->0 is Capabilities <==> raw
            == 2,
        fixed_answer(named(raw)) is Some && fixed_answer(named(raw))->0 is LockStatus <==> raw == 3,
        fixed_answer(named(raw)) matches Some(
            FixedReply::Capabilities { dfu_enabled, is_split, ble_enabled, max_payload_size },
        ) ==> dfu_enabled && is_split && ble_enabled && max_payload_size == 2048,
        fixed_answer(named(raw)) matches Some(
            FixedReply::LockStatus { locked, unlocking, remaining_keys },
        ) ==> !locked && !unlocking && remaining_keys == 0,
{
}

} // verus!
