//! The peripheral half of a split keyboard.
//!
//! [`SplitPeripheral`] decides what each input means; the link, the flash and the
//! event channels carry its [`PeripheralStep`]s out.

use vstd::prelude::*;
use crate::crc32::{crc32, crc_of};
use crate::split::driver::SplitDriverError;
use crate::split::{SplitMessage, SPLIT_CHUNK_SIZE};
use crate::types::{BatteryStatus, ChargeState, ConnectionStatus, KeyboardEvent, PointingEvent};

verus! {

/// Something of the peripheral's own that the central is told.
#[derive(Clone, Copy, Debug, PartialEq, Eq)]
pub enum LocalEvent {
    Key(KeyboardEvent),
    /// The charger was plugged in or pulled.
    Charging(bool),
    Pointing(PointingEvent),
    Battery(BatteryStatus),
}

pub open spec fn local_message(event: LocalEvent) -> SplitMessage {
    match event {
        LocalEvent::Key(e) => SplitMessage::Key(e),
        LocalEvent::Charging(on) => SplitMessage::BatteryStatus(
            BatteryStatus::Available {
                charge_state: if on {
                    ChargeState::Charging
                } else {
                    ChargeState::Discharging
                },
                level: None,
            },
        ),
        LocalEvent::Pointing(e) => SplitMessage::Pointing(e),
        LocalEvent::Battery(status) => SplitMessage::BatteryStatus(status),
    }
}

/// What a [`SplitPeripheral`] is at.
#[derive(Clone, Copy, Debug, PartialEq, Eq, Structural)]
pub enum PeripheralPhase {
    /// Waits for a message or for something to tell.
    Running,
    /// The flash writes the chunk for `offset`, whose CRC-32 is `crc`.
    Writing { offset: u32, crc: u32 },
    /// The flash reads the downloaded image back.
    ReadingBack,
    /// The central compares.
    AwaitVerdict,
    /// The link is gone.
    Stopped,
}

/// What comes in.
#[derive(Debug, PartialEq, Eq)]
pub enum PeripheralInput {
    /// A reading from the central.
    Central(Result<SplitMessage, SplitDriverError>),
    /// Something to tell.
    Local(LocalEvent),
    /// Whether the chunk was written.
    Written(bool),
    /// The CRC-32 of the image read back, or `None` where reading failed.
    ReadBack(Option<u32>),
    /// The central did not answer in time.
    VerdictTimeout,
}

/// What is to be done about it.
#[derive(Debug, PartialEq, Eq)]
pub enum PeripheralStep {
    /// Nothing.
    Idle,
    /// Send a message; whether it arrives makes no difference.
    Send(SplitMessage),
    /// Take over the central's status, then send the current battery status: the
    /// central sends its own only after it has subscribed.
    AdoptStatus(ConnectionStatus),
    /// Store that the central's address is not known.
    ForgetCentral,
    PublishIndicator(u8),
    PublishLayer(u8),
    PublishWpm(u16),
    PublishModifier(u8),
    PublishSleep(bool),
    /// Send the CRC-32 of the running firmware.
    SendFirmwareHash,
    /// Write firmware bytes; answer with `Written`.
    WriteChunk { offset: u32, data: Vec<u8> },
    /// Compute the CRC-32 of the downloaded image; answer with `ReadBack`.
    ReadImageBack,
    /// Send the report and wait up to 5 s for the central's verdict.
    ReportCrc(u32),
    /// Confirm, wait 50 ms, mark the image as the new firmware and restart.
    ConfirmAndRestart,
    /// Restart.
    Restart,
    /// End the session.
    Stop,
}

/// The bytes of a chunk message.
pub open spec fn chunk_payload(data: Seq<u8>, len: u16) -> Seq<u8> {
    data.subrange(0, len as int)
}

/// The phase that an input leads to.
pub open spec fn next_phase(phase: PeripheralPhase, input: PeripheralInput) -> PeripheralPhase {
    match (phase, input) {
        (PeripheralPhase::Running, PeripheralInput::Central(Ok(m))) => match m {
            SplitMessage::FirmwareChunk { offset, len, data } => PeripheralPhase::Writing {
                offset,
                crc: crc_of(chunk_payload(data@, len)),
            },
            SplitMessage::FirmwareUpdateComplete => PeripheralPhase::ReadingBack,
            _ => phase,
        },
        (PeripheralPhase::Running, PeripheralInput::Central(Err(SplitDriverError::Disconnected))) =>
        PeripheralPhase::Stopped,
        (PeripheralPhase::Writing { .. }, PeripheralInput::Written(_)) => PeripheralPhase::Running,
        (PeripheralPhase::ReadingBack, PeripheralInput::ReadBack(Some(_))) =>
        PeripheralPhase::AwaitVerdict,
        (PeripheralPhase::ReadingBack, PeripheralInput::ReadBack(None)) => PeripheralPhase::Running,
        (PeripheralPhase::AwaitVerdict, PeripheralInput::Central(Ok(m))) => match m {
            SplitMessage::FirmwareCrcOk | SplitMessage::FirmwareCrcFail => PeripheralPhase::Running,
            _ => phase,
        },
        (PeripheralPhase::AwaitVerdict, PeripheralInput::Central(Err(_))) =>
        PeripheralPhase::Running,
        (PeripheralPhase::AwaitVerdict, PeripheralInput::VerdictTimeout) =>
        PeripheralPhase::Running,
        _ => phase,
    }
}

/// Whether `step` is what an input calls for.
pub open spec fn is_step(
    phase: PeripheralPhase,
    input: PeripheralInput,
    step: PeripheralStep,
) -> bool {
    match (phase, input) {
        (PeripheralPhase::Running, PeripheralInput::Central(Ok(m))) => match m {
            SplitMessage::ConnectionStatus(s) => step == PeripheralStep::AdoptStatus(s),
            SplitMessage::ClearPeer => step == PeripheralStep::ForgetCentral,
            SplitMessage::KeyboardIndicator(bits) => step == PeripheralStep::PublishIndicator(bits),
            SplitMessage::Layer(n) => step == PeripheralStep::PublishLayer(n),
            SplitMessage::Wpm(n) => step == PeripheralStep::PublishWpm(n),
            SplitMessage::Modifier(bits) => step == PeripheralStep::PublishModifier(bits),
            SplitMessage::SleepState(b) => step == PeripheralStep::PublishSleep(b),
            SplitMessage::FirmwareHashQuery => step == PeripheralStep::SendFirmwareHash,
            SplitMessage::FirmwareChunk { offset, len, data } => match step {
                PeripheralStep::WriteChunk { offset: o, data: d } => o == offset && d@
                    == chunk_payload(data@, len),
                _ => false,
            },
            SplitMessage::FirmwareUpdateComplete => step == PeripheralStep::ReadImageBack,
            SplitMessage::SystemReset => step == PeripheralStep::Restart,
            _ => step == PeripheralStep::Idle,
        },
        (PeripheralPhase::Running, PeripheralInput::Central(Err(SplitDriverError::Disconnected))) =>
        step == PeripheralStep::Stop,
        (PeripheralPhase::Running, PeripheralInput::Local(event)) => step == PeripheralStep::Send(
            local_message(event),
        ),
        (PeripheralPhase::Writing { offset, crc }, PeripheralInput::Written(true)) => step
            == PeripheralStep::Send(SplitMessage::FirmwareChunkAck { offset, crc }),
        (PeripheralPhase::ReadingBack, PeripheralInput::ReadBack(Some(crc))) => step
            == PeripheralStep::ReportCrc(crc),
        (
            PeripheralPhase::AwaitVerdict,
            PeripheralInput::Central(Ok(SplitMessage::FirmwareCrcOk)),
        ) => step == PeripheralStep::ConfirmAndRestart,
        (PeripheralPhase::Stopped, _) => step == PeripheralStep::Stop,
        _ => step == PeripheralStep::Idle,
    }
}

/// A chunk never claims more bytes than its message holds.
pub open spec fn input_wf(input: PeripheralInput) -> bool {
    match input {
        PeripheralInput::Central(Ok(SplitMessage::FirmwareChunk { len, .. })) => len
            <= SPLIT_CHUNK_SIZE,
        _ => true,
    }
}

/// The split peripheral instance.
pub struct SplitPeripheral {
    pub phase: PeripheralPhase,
}

impl SplitPeripheral {
    pub fn new() -> (r: Self)
        ensures
            r.phase == PeripheralPhase::Running,
    {
        SplitPeripheral { phase: PeripheralPhase::Running }
    }

    /// The first message of a session: the peripheral announces its firmware's
    /// hash, so that the central can detect it even when it booted first and
    /// already gave up waiting for an answer.
    pub fn greeting(&self, firmware_hash: u32) -> (r: SplitMessage)
        ensures
            r == SplitMessage::FirmwareHashResponse(firmware_hash),
    {
        SplitMessage::FirmwareHashResponse(firmware_hash)
    }

    /// One turn of the peripheral's loop.
    pub fn step(&mut self, input: PeripheralInput) -> (r: PeripheralStep)
        requires
            input_wf(input),
        ensures
            final(self).phase == next_phase(old(self).phase, input),
            is_step(old(self).phase, input, r),
    {
        match self.phase {
            PeripheralPhase::Running => match input {
                PeripheralInput::Central(Ok(m)) => self.on_message(m),
                PeripheralInput::Central(Err(e)) => {
                    if let SplitDriverError::Disconnected = e {
                        self.phase = PeripheralPhase::Stopped;
                        PeripheralStep::Stop
                    } else {
                        PeripheralStep::Idle
                    }
                },
                PeripheralInput::Local(event) => PeripheralStep::Send(message_for_local(event)),
                _ => PeripheralStep::Idle,
            },
            PeripheralPhase::Writing { offset, crc } => match input {
                PeripheralInput::Written(ok) => {
                    self.phase = PeripheralPhase::Running;
                    if ok {
                        PeripheralStep::Send(SplitMessage::FirmwareChunkAck { offset, crc })
                    } else {
                        PeripheralStep::Idle
                    }
                },
                _ => PeripheralStep::Idle,
            },
            PeripheralPhase::ReadingBack => match input {
                PeripheralInput::ReadBack(Some(crc)) => {
                    self.phase = PeripheralPhase::AwaitVerdict;
                    PeripheralStep::ReportCrc(crc)
                },
                PeripheralInput::ReadBack(None) => {
                    // Without a report the central's verification times out, so a
                    // flash that cannot be read back never gets booted.
                    self.phase = PeripheralPhase::Running;
                    PeripheralStep::Idle
                },
                _ => PeripheralStep::Idle,
            },
            PeripheralPhase::AwaitVerdict => match input {
                PeripheralInput::Central(Ok(SplitMessage::FirmwareCrcOk)) => {
                    self.phase = PeripheralPhase::Running;
                    PeripheralStep::ConfirmAndRestart
                },
                PeripheralInput::Central(Ok(SplitMessage::FirmwareCrcFail)) => {
                    self.phase = PeripheralPhase::Running;
                    PeripheralStep::Idle
                },
                PeripheralInput::Central(Err(_)) => {
                    self.phase = PeripheralPhase::Running;
                    PeripheralStep::Idle
                },
                PeripheralInput::VerdictTimeout => {
                    self.phase = PeripheralPhase::Running;
                    PeripheralStep::Idle
                },
                _ => PeripheralStep::Idle,
            },
            PeripheralPhase::Stopped => PeripheralStep::Stop,
        }
    }

    fn on_message(&mut self, m: SplitMessage) -> (r: PeripheralStep)
        requires
            old(self).phase == PeripheralPhase::Running,
            input_wf(PeripheralInput::Central(Ok(m))),
        ensures
            final(self).phase == next_phase(
                PeripheralPhase::Running,
                PeripheralInput::Central(Ok(m)),
            ),
            is_step(PeripheralPhase::Running, PeripheralInput::Central(Ok(m)), r),
    {
        match m {
            SplitMessage::ConnectionStatus(s) => PeripheralStep::AdoptStatus(s),
            SplitMessage::ClearPeer => PeripheralStep::ForgetCentral,
            SplitMessage::KeyboardIndicator(bits) => PeripheralStep::PublishIndicator(bits),
            SplitMessage::Layer(n) => PeripheralStep::PublishLayer(n),
            SplitMessage::Wpm(n) => PeripheralStep::PublishWpm(n),
            SplitMessage::Modifier(bits) => PeripheralStep::PublishModifier(bits),
            SplitMessage::SleepState(b) => PeripheralStep::PublishSleep(b),
            SplitMessage::FirmwareHashQuery => PeripheralStep::SendFirmwareHash,
            SplitMessage::FirmwareChunk { offset, len, data } => {
                let bytes = vstd::slice::slice_subrange(data.as_slice(), 0, len as usize);
                let crc: u32 = crc32(bytes);
                self.phase = PeripheralPhase::Writing { offset, crc };
                PeripheralStep::WriteChunk { offset, data: vstd::slice::slice_to_vec(bytes) }
            },
            SplitMessage::FirmwareUpdateComplete => {
                self.phase = PeripheralPhase::ReadingBack;
                PeripheralStep::ReadImageBack
            },
            SplitMessage::SystemReset => PeripheralStep::Restart,
            _ => PeripheralStep::Idle,
        }
    }
}

/// The message that tells the central of an event.
pub fn message_for_local(event: LocalEvent) -> (r: SplitMessage)
    ensures
        r == local_message(event),
{
    match event {
        LocalEvent::Key(e) => SplitMessage::Key(e),
        LocalEvent::Charging(on) => {
            let charge_state = if on {
                ChargeState::Charging
            } else {
                ChargeState::Discharging
            };
            SplitMessage::BatteryStatus(BatteryStatus::Available { charge_state, level: None })
        },
        LocalEvent::Pointing(e) => SplitMessage::Pointing(e),
        LocalEvent::Battery(status) => SplitMessage::BatteryStatus(status),
    }
}

// ---------------------------------------------------------------------------
// Laws
// ---------------------------------------------------------------------------

/// New firmware is started only on the central's word that the copy is good,
/// given while the peripheral waits for it after its own report.
pub proof fn law_restart_into_new_firmware_needs_the_centrals_word(
    phase: PeripheralPhase,
    input: PeripheralInput,
    step: PeripheralStep,
)
    requires
        is_step(phase, input, step),
        step == PeripheralStep::ConfirmAndRestart,
    ensures
        phase == PeripheralPhase::AwaitVerdict,
        input == PeripheralInput::Central(Ok(SplitMessage::FirmwareCrcOk)),
{
}

/// A chunk that was written is acknowledged with its own offset and the CRC-32
/// of exactly the bytes handed to the flash; one that was not is not
/// acknowledged.
pub proof fn law_an_acknowledgement_names_what_was_written(
    message: SplitMessage,
    write: PeripheralStep,
    ok: bool,
    answer: PeripheralStep,
)
    requires
        message is FirmwareChunk,
        is_step(PeripheralPhase::Running, PeripheralInput::Central(Ok(message)), write),
        is_step(
            next_phase(PeripheralPhase::Running, PeripheralInput::Central(Ok(message))),
            PeripheralInput::Written(ok),
            answer,
        ),
    ensures
        write matches PeripheralStep::WriteChunk { offset, data } && (if ok {
            answer == PeripheralStep::Send(
                SplitMessage::FirmwareChunkAck { offset, crc: crc_of(data@) },
            )
        } else {
            answer == PeripheralStep::Idle
        }),
{
}

/// Whatever the peripheral has to tell goes out as the message of its kind, with nothing
/// changed. The charger tells that the battery charges or not, and nothing of its level.
pub proof fn law_local_events_are_told_as_they_are(event: LocalEvent, step: PeripheralStep)
    requires
        is_step(PeripheralPhase::Running, PeripheralInput::Local(event), step),
    ensures
        step matches PeripheralStep::Send(m) && match event {
            LocalEvent::Key(e) => m == SplitMessage::Key(e),
            LocalEvent::Pointing(e) => m == SplitMessage::Pointing(e),
            LocalEvent::Battery(b) => m == SplitMessage::BatteryStatus(b),
            LocalEvent::Charging(on) => m matches SplitMessage::BatteryStatus(
                BatteryStatus::Available { charge_state, level },
            ) && level is None && (charge_state is Charging <==> on),
        },
{
}

/// A chunk is written as far as its message says: its bytes are the first of the message, and
/// its offset is the message's.
pub proof fn law_a_chunk_is_written_as_it_came(
    offset: u32,
    len: u16,
    data: [u8; SPLIT_CHUNK_SIZE],
    step: PeripheralStep,
    i: int,
)
    requires
        len <= SPLIT_CHUNK_SIZE,
        is_step(
            PeripheralPhase::Running,
            PeripheralInput::Central(Ok(SplitMessage::FirmwareChunk { offset, len, data })),
            step,
        ),
    ensures
        step matches PeripheralStep::WriteChunk { offset: o, data: d } && o == offset && d@.len()
            == len && (0 <= i < len ==> d@[i] == data@[i]),
{
}

/// The central's state is published as it was told, each kind as its own; a reset restarts, and
/// the end of a download has the image read back.
pub proof fn law_what_the_central_tells_is_published(m: SplitMessage, step: PeripheralStep)
    requires
        is_step(PeripheralPhase::Running, PeripheralInput::Central(Ok(m)), step),
    ensures
        match m {
            SplitMessage::ConnectionStatus(s) => step == PeripheralStep::AdoptStatus(s),
            SplitMessage::ClearPeer => step is ForgetCentral,
            SplitMessage::KeyboardIndicator(n) => step == PeripheralStep::PublishIndicator(n),
            SplitMessage::Layer(n) => step == PeripheralStep::PublishLayer(n),
            SplitMessage::Wpm(n) => step == PeripheralStep::PublishWpm(n),
            SplitMessage::Modifier(n) => step == PeripheralStep::PublishModifier(n),
            SplitMessage::SleepState(b) => step == PeripheralStep::PublishSleep(b),
            SplitMessage::SystemReset => step is Restart,
            SplitMessage::FirmwareHashQuery => step is SendFirmwareHash,
            SplitMessage::FirmwareUpdateComplete => step is ReadImageBack,
            SplitMessage::FirmwareChunk { .. } => step is WriteChunk,
            _ => step is Idle,
        },
{
}

/// A session ends with its link and not before: no message, no failed write and no verdict ends
/// it, and a read error that is no disconnection does not either. After a verdict, or the lack
/// of one, the peripheral runs on.
pub proof fn law_a_session_ends_with_its_link(phase: PeripheralPhase, input: PeripheralInput)
    ensures
        phase !is Stopped ==> (next_phase(phase, input) is Stopped <==> phase is Running && input
            == PeripheralInput::Central(Err(SplitDriverError::Disconnected))),
        phase is Stopped ==> next_phase(phase, input) is Stopped,
        phase is AwaitVerdict ==> (next_phase(phase, input) is Running <==> (input matches
            PeripheralInput::Central(Ok(m)) && (m is FirmwareCrcOk || m is FirmwareCrcFail))
            || input matches PeripheralInput::Central(Err(_)) || input is VerdictTimeout),
        phase is Writing ==> (next_phase(phase, input) is Running <==> input is Written),
        phase is ReadingBack ==> (input matches PeripheralInput::ReadBack(crc) ==> next_phase(
            phase,
            input,
        ) == (if crc is Some {
            PeripheralPhase::AwaitVerdict
        } else {
            PeripheralPhase::Running
        })),
{
}

/// The CRC-32 that is reported is the one that was read back; where the image could not be read
/// nothing is reported.
pub proof fn law_the_read_back_is_reported(crc: Option<u32>, step: PeripheralStep)
    requires
        is_step(PeripheralPhase::ReadingBack, PeripheralInput::ReadBack(crc), step),
    ensures
        crc is Some ==> step == PeripheralStep::ReportCrc(crc->0),
        crc is None ==> step is Idle,
{
}

/// Keys, pointing and battery states go to the central as they are; a charger only says whether
/// it charges, and no level.
pub proof fn law_local_events_are_sent_as_they_are(event: LocalEvent)
    ensures
        event matches LocalEvent::Key(e) ==> local_message(event) == SplitMessage::Key(e),
        event matches LocalEvent::Pointing(e) ==> local_message(event) == SplitMessage::Pointing(e),
        event matches LocalEvent::Battery(s) ==> local_message(event)
            == SplitMessage::BatteryStatus(s),
        event matches LocalEvent::Charging(on) ==> (local_message(event) matches
            SplitMessage::BatteryStatus(BatteryStatus::Available { charge_state, level }) && level
            is None && (charge_state is Charging <==> on) && (charge_state is Discharging
            <==> !on)),
{
}

} // verus!
