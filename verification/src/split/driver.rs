//! The abstracted driver layer of the split keyboard, on the central.

use vstd::prelude::*;
use crate::dfu::DfuCmd;
use crate::split::ble::PeerAddress;
use crate::split::dfu::UpdatePolicy;
use crate::split::passthrough::{PassPhase, Passthrough};
use crate::split::{SplitMessage, SPLIT_PERIPHERALS_NUM};
use crate::types::{BatteryStatus, ConnectionStatus, KeyboardEvent, KeyboardEventPos, PointingEvent};

verus! {

#[derive(Clone, Copy, Debug, PartialEq, Eq, Structural)]
pub enum SplitDriverError {
    SerialError,
    EmptyMessage,
    DeserializeError,
    SerializeError,
    BleError(u8),
    Disconnected,
}

// ---------------------------------------------------------------------------
// Live status of the peripherals
// ---------------------------------------------------------------------------

/// Live per-peripheral status, latched so that host services can read a current
/// snapshot at any time. Wired peripherals never report a battery, so theirs
/// stays `Unavailable`.
#[derive(Clone, Copy, Debug, PartialEq, Eq, Structural)]
pub struct PeripheralSlot {
    pub connected: bool,
    pub battery: BatteryStatus,
}

/// A snapshot of one peripheral, as host services read it.
#[derive(Clone, Copy, Debug, PartialEq, Eq, Structural)]
pub struct PeripheralStatus {
    pub connected: bool,
    pub battery: BatteryStatus,
}

/// Broadcast when a peripheral connects or drops.
#[derive(Clone, Copy, Debug, PartialEq, Eq, Structural)]
pub struct PeripheralConnectedEvent {
    pub id: usize,
    pub connected: bool,
}

/// Broadcast when a peripheral's battery changes.
#[derive(Clone, Copy, Debug, PartialEq, Eq, Structural)]
pub struct PeripheralBatteryEvent {
    pub id: usize,
    pub state: BatteryStatus,
}

/// The status of every peripheral.
pub struct PeripheralSlots {
    slots: [PeripheralSlot; SPLIT_PERIPHERALS_NUM],
}

impl View for PeripheralSlots {
    type V = Seq<PeripheralSlot>;

    closed spec fn view(&self) -> Seq<PeripheralSlot> {
        self.slots@
    }
}

impl PeripheralSlots {
    /// Nothing connected, no battery known.
    pub fn new() -> (r: Self)
        ensures
            r@.len() == SPLIT_PERIPHERALS_NUM,
            forall|i: int|
                0 <= i < SPLIT_PERIPHERALS_NUM ==> r@[i] == (PeripheralSlot {
                    connected: false,
                    battery: BatteryStatus::Unavailable,
                }),
    {
        PeripheralSlots {
            slots: [PeripheralSlot {
                connected: false,
                battery: BatteryStatus::Unavailable,
            };SPLIT_PERIPHERALS_NUM],
        }
    }

    /// Puts `slot` in the place of peripheral `id`'s slot. Returns `false` when
    /// `id` is out of range or the slot didn't change, so callers skip
    /// publishing.
    pub fn update_slot(&mut self, id: usize, slot: PeripheralSlot) -> (r: bool)
        ensures
            r == (id < SPLIT_PERIPHERALS_NUM && old(self)@[id as int] != slot),
            final(self)@.len() == SPLIT_PERIPHERALS_NUM,
            final(self)@ == if id < SPLIT_PERIPHERALS_NUM {
                old(self)@.update(id as int, slot)
            } else {
                old(self)@
            },
    {
        if id >= SPLIT_PERIPHERALS_NUM {
            return false;
        }
        if self.slots[id] == slot {
            assert(self@ =~= old(self)@.update(id as int, slot));
            return false;
        }
        self.slots[id] = slot;
        true
    }

    /// Latch peripheral `id`'s connected state. The event to broadcast, if it is
    /// a change.
    pub fn set_peripheral_connected(&mut self, id: usize, connected: bool) -> (r: Option<
        PeripheralConnectedEvent,
    >)
        ensures
            r == if id < SPLIT_PERIPHERALS_NUM && old(self)@[id as int].connected != connected {
                Some(PeripheralConnectedEvent { id, connected })
            } else {
                None
            },
            final(self)@.len() == SPLIT_PERIPHERALS_NUM,
            final(self)@ == if id < SPLIT_PERIPHERALS_NUM {
                old(self)@.update(id as int, PeripheralSlot { connected, ..old(self)@[id as int] })
            } else {
                old(self)@
            },
    {
        if id >= SPLIT_PERIPHERALS_NUM {
            return None;
        }
        let slot = PeripheralSlot { connected, battery: self.slots[id].battery };
        if self.update_slot(id, slot) {
            Some(PeripheralConnectedEvent { id, connected })
        } else {
            None
        }
    }

    /// Latch peripheral `id`'s battery status. The event to broadcast, if it is a
    /// change.
    pub fn set_peripheral_battery(&mut self, id: usize, battery: BatteryStatus) -> (r: Option<
        PeripheralBatteryEvent,
    >)
        ensures
            r == if id < SPLIT_PERIPHERALS_NUM && old(self)@[id as int].battery != battery {
                Some(PeripheralBatteryEvent { id, state: battery })
            } else {
                None
            },
            final(self)@.len() == SPLIT_PERIPHERALS_NUM,
            final(self)@ == if id < SPLIT_PERIPHERALS_NUM {
                old(self)@.update(id as int, PeripheralSlot { battery, ..old(self)@[id as int] })
            } else {
                old(self)@
            },
    {
        if id >= SPLIT_PERIPHERALS_NUM {
            return None;
        }
        let slot = PeripheralSlot { connected: self.slots[id].connected, battery };
        if self.update_slot(id, slot) {
            Some(PeripheralBatteryEvent { id, state: battery })
        } else {
            None
        }
    }

    /// Latest battery status reported by peripheral `id`.
    pub fn current_peripheral_battery_status(&self, id: usize) -> (r: Option<BatteryStatus>)
        ensures
            self@.len() == SPLIT_PERIPHERALS_NUM,
            r == if id < SPLIT_PERIPHERALS_NUM {
                Some(self@[id as int].battery)
            } else {
                None
            },
    {
        if id < SPLIT_PERIPHERALS_NUM {
            Some(self.slots[id].battery)
        } else {
            None
        }
    }

    /// Latest snapshot for peripheral `id`, or `None` when `id` is out of range.
    pub fn current_peripheral_status(&self, id: usize) -> (r: Option<PeripheralStatus>)
        ensures
            self@.len() == SPLIT_PERIPHERALS_NUM,
            r == if id < SPLIT_PERIPHERALS_NUM {
                Some(
                    PeripheralStatus {
                        connected: self@[id as int].connected,
                        battery: self@[id as int].battery,
                    },
                )
            } else {
                None
            },
    {
        if id < SPLIT_PERIPHERALS_NUM {
            let s = self.slots[id];
            Some(PeripheralStatus { connected: s.connected, battery: s.battery })
        } else {
            None
        }
    }
}

// ---------------------------------------------------------------------------
// The manager of one peripheral
// ---------------------------------------------------------------------------

/// A peripheral's matrix size and placement in the central's keymap.
#[derive(Clone, Copy, Debug, PartialEq, Eq, Structural)]
pub struct PeripheralMatrixConfig {
    pub rows: u8,
    pub cols: u8,
    pub row_offset: u8,
    pub col_offset: u8,
}

impl PeripheralMatrixConfig {
    /// Every key of the peripheral has a place in a keymap.
    pub open spec fn wf(self) -> bool {
        self.rows + self.row_offset <= 256 && self.cols + self.col_offset <= 256
    }
}

/// What a message from the peripheral brings about.
#[derive(Clone, Copy, Debug, PartialEq, Eq)]
pub enum PeripheralEffect {
    /// Publish a key event, waiting for room.
    PublishKey(KeyboardEvent),
    /// Publish motion; dropped when there is no room, which keeps the read loop
    /// responsive.
    PublishPointing(PointingEvent),
    /// Latch the peripheral's battery.
    SetBattery(BatteryStatus),
    /// Nothing.
    Ignore,
}

/// What happens to the message `m` of a peripheral placed by `c`.
pub open spec fn peripheral_effect(c: PeripheralMatrixConfig, m: SplitMessage) -> PeripheralEffect {
    match m {
        SplitMessage::Key(e) => match e.pos {
            KeyboardEventPos::Key { row, col } => if row < c.rows && col < c.cols {
                PeripheralEffect::PublishKey(
                    KeyboardEvent {
                        pos: KeyboardEventPos::Key {
                            row: (row + c.row_offset) as u8,
                            col: (col + c.col_offset) as u8,
                        },
                        pressed: e.pressed,
                    },
                )
            } else {
                PeripheralEffect::Ignore
            },
            _ => PeripheralEffect::PublishKey(e),
        },
        SplitMessage::Pointing(e) => PeripheralEffect::PublishPointing(e),
        SplitMessage::BatteryStatus(state) => PeripheralEffect::SetBattery(state),
        _ => PeripheralEffect::Ignore,
    }
}

/// Something of the central's that its peripherals are told.
#[derive(Clone, Copy, Debug, PartialEq, Eq, Structural)]
pub enum CentralEvent {
    Indicator(u8),
    Layer(u8),
    Connection(ConnectionStatus),
    ClearPeer,
    Sleep(bool),
    Wpm(u16),
    Modifier(u8),
}

/// How the central passes an event on: the message to send, after the address to
/// store, if there is one.
pub fn message_for_event(id: usize, event: CentralEvent) -> (r: (Option<PeerAddress>, SplitMessage))
    ensures
        match event {
            CentralEvent::Indicator(bits) => r == (
                None::<PeerAddress>,
                SplitMessage::KeyboardIndicator(bits),
            ),
            CentralEvent::Layer(n) => r == (None::<PeerAddress>, SplitMessage::Layer(n)),
            CentralEvent::Connection(s) => r == (
                None::<PeerAddress>,
                SplitMessage::ConnectionStatus(s),
            ),
            CentralEvent::ClearPeer => r.1 == SplitMessage::ClearPeer && (r.0 matches Some(p)
                && p.peer_id == id as u8 && !p.is_valid && forall|i: int|
                0 <= i < 6 ==> p.address@[i] == 0),
            CentralEvent::Sleep(b) => r == (None::<PeerAddress>, SplitMessage::SleepState(b)),
            CentralEvent::Wpm(n) => r == (None::<PeerAddress>, SplitMessage::Wpm(n)),
            CentralEvent::Modifier(bits) => r == (
                None::<PeerAddress>,
                SplitMessage::Modifier(bits),
            ),
        },
{
    match event {
        CentralEvent::Indicator(bits) => (None, SplitMessage::KeyboardIndicator(bits)),
        CentralEvent::Layer(n) => (None, SplitMessage::Layer(n)),
        CentralEvent::Connection(s) => (None, SplitMessage::ConnectionStatus(s)),
        CentralEvent::ClearPeer => {
            #[verifier::truncate]
            let peer_id: u8 = id as u8;
            (Some(PeerAddress::new(peer_id, false, [0u8;6])), SplitMessage::ClearPeer)
        },
        CentralEvent::Sleep(b) => (None, SplitMessage::SleepState(b)),
        CentralEvent::Wpm(n) => (None, SplitMessage::Wpm(n)),
        CentralEvent::Modifier(bits) => (None, SplitMessage::Modifier(bits)),
    }
}

/// What the manager's loop got hold of.
#[derive(Debug, PartialEq, Eq)]
pub enum ManagerInput {
    /// A reading from the peripheral.
    Peripheral(Result<SplitMessage, SplitDriverError>),
    /// Something for the peripheral.
    Central(CentralEvent),
    /// A DFU command.
    Dfu(DfuCmd),
}

/// What the manager's loop does with it.
#[derive(Debug, PartialEq, Eq)]
pub enum ManagerStep {
    Apply(PeripheralEffect),
    /// Check whether this firmware hash calls for an update.
    CheckHash(u32),
    /// Store the address, if there is one, and send the message. The manager ends
    /// when it cannot be sent.
    Tell(Option<PeerAddress>, SplitMessage),
    /// Work through a DFU command.
    Forward(DfuCmd),
}

/// Runs in the central, one per peripheral: it takes the peripheral's messages in
/// and tells it of the central's state.
pub struct PeripheralManager {
    /// Peripheral id.
    pub id: usize,
    /// This peripheral's matrix size and placement in the central's keymap.
    pub matrix_config: PeripheralMatrixConfig,
    /// The DFU download on its way to the peripheral.
    pub passthrough: Passthrough,
    /// Whether to skip hash comparison and always flash firmware.
    pub policy: UpdatePolicy,
}

impl PeripheralManager {
    pub fn new(id: usize, matrix_config: PeripheralMatrixConfig, policy: UpdatePolicy) -> (r: Self)
        ensures
            r.id == id,
            r.matrix_config == matrix_config,
            r.policy == policy,
            r.passthrough.wf(),
            r.passthrough.spec_id() == id,
            r.passthrough.model().phase == PassPhase::Idle,
            !r.passthrough.model().aborted,
            r.passthrough.model().register == 0xFFFF_FFFF,
    {
        PeripheralManager { id, matrix_config, passthrough: Passthrough::new(id), policy }
    }

    /// The first message on a new link, so that the peripheral matches the
    /// central even when nothing has changed since the central booted.
    pub fn greeting(&self, status: ConnectionStatus) -> (r: SplitMessage)
        ensures
            r == SplitMessage::ConnectionStatus(status),
    {
        SplitMessage::ConnectionStatus(status)
    }

    /// Process a single message from the peripheral.
    pub fn process_peripheral_message(&self, message: SplitMessage) -> (r: PeripheralEffect)
        requires
            self.matrix_config.wf(),
        ensures
            r == peripheral_effect(self.matrix_config, message),
    {
        let c = self.matrix_config;
        match message {
            SplitMessage::Key(e) => match e.pos {
                KeyboardEventPos::Key { row, col } => {
                    if row >= c.rows || col >= c.cols {
                        PeripheralEffect::Ignore
                    } else {
                        PeripheralEffect::PublishKey(
                            KeyboardEvent::key(row + c.row_offset, col + c.col_offset, e.pressed),
                        )
                    }
                },
                _ => PeripheralEffect::PublishKey(e),
            },
            SplitMessage::Pointing(e) => PeripheralEffect::PublishPointing(e),
            SplitMessage::BatteryStatus(state) => PeripheralEffect::SetBattery(state),
            _ => PeripheralEffect::Ignore,
        }
    }

    /// One turn of the manager's loop.
    pub fn step(&self, input: ManagerInput) -> (r: ManagerStep)
        requires
            self.matrix_config.wf(),
        ensures
            match input {
                ManagerInput::Peripheral(Ok(SplitMessage::FirmwareHashResponse(hash))) => r
                    == ManagerStep::CheckHash(hash),
                ManagerInput::Peripheral(Ok(m)) => r == ManagerStep::Apply(
                    peripheral_effect(self.matrix_config, m),
                ),
                ManagerInput::Peripheral(Err(_)) => r == ManagerStep::Apply(
                    PeripheralEffect::Ignore,
                ),
                ManagerInput::Central(event) => r matches ManagerStep::Tell(a, m)
                    && message_for_event.ensures((self.id, event), (a, m)),
                ManagerInput::Dfu(cmd) => r == ManagerStep::Forward(cmd),
            },
    {
        match input {
            ManagerInput::Peripheral(Ok(SplitMessage::FirmwareHashResponse(hash))) => {
                ManagerStep::CheckHash(hash)
            },
            ManagerInput::Peripheral(Ok(m)) => ManagerStep::Apply(
                self.process_peripheral_message(m),
            ),
            ManagerInput::Peripheral(Err(_)) => ManagerStep::Apply(PeripheralEffect::Ignore),
            ManagerInput::Central(event) => {
                let (address, message) = message_for_event(self.id, event);
                ManagerStep::Tell(address, message)
            },
            ManagerInput::Dfu(cmd) => ManagerStep::Forward(cmd),
        }
    }
}

// ---------------------------------------------------------------------------
// Laws
// ---------------------------------------------------------------------------

/// A key of the peripheral only ever shows up inside the peripheral's own part
/// of the keymap, and two of its keys never show up as one.
pub proof fn law_peripheral_keys_keep_their_place(
    c: PeripheralMatrixConfig,
    a: KeyboardEvent,
    b: KeyboardEvent,
)
    requires
        c.wf(),
        a.pos is Key,
        b.pos is Key,
        peripheral_effect(c, SplitMessage::Key(a)) is PublishKey,
    ensures
        ({
            let e = peripheral_effect(c, SplitMessage::Key(a))->PublishKey_0;
            &&& e.pressed == a.pressed
            &&& e.pos matches KeyboardEventPos::Key { row, col } && c.row_offset <= row
                < c.row_offset + c.rows && c.col_offset <= col < c.col_offset + c.cols
        }),
        peripheral_effect(c, SplitMessage::Key(a)) == peripheral_effect(c, SplitMessage::Key(b))
            ==> a == b,
{
}

/// Every key of the peripheral's matrix shows up, moved by the peripheral's place in the
/// keymap, and no key outside its matrix does. What is no key of the matrix is passed on as it
/// is; what the central tells its peripherals does nothing when it comes from one.
pub proof fn law_every_key_of_the_peripheral_shows_up(
    c: PeripheralMatrixConfig,
    row: u8,
    col: u8,
    pressed: bool,
    e: KeyboardEvent,
    m: SplitMessage,
)
    requires
        c.wf(),
    ensures
        ({
            let key = KeyboardEvent { pos: KeyboardEventPos::Key { row, col }, pressed };
            let effect = peripheral_effect(c, SplitMessage::Key(key));
            &&& row < c.rows && col < c.cols ==> (effect matches PeripheralEffect::PublishKey(k)
                && k.pressed == pressed && (k.pos matches KeyboardEventPos::Key {
                row: r,
                col: l,
            } && r == row + c.row_offset && l == col + c.col_offset))
            &&& row >= c.rows || col >= c.cols ==> effect == PeripheralEffect::Ignore
        }),
        e.pos is RotaryEncoder ==> peripheral_effect(c, SplitMessage::Key(e))
            == PeripheralEffect::PublishKey(e),
        m matches SplitMessage::Pointing(p) ==> peripheral_effect(c, m)
            == PeripheralEffect::PublishPointing(p),
        m matches SplitMessage::BatteryStatus(b) ==> peripheral_effect(c, m)
            == PeripheralEffect::SetBattery(b),
        !(m is Key) && !(m is Pointing) && !(m is BatteryStatus) ==> peripheral_effect(c, m)
            == PeripheralEffect::Ignore,
{
}

/// No two events of the central are sent as the same message, and only clearing the peer also
/// changes the stored address.
pub proof fn law_each_event_has_its_own_message(
    id: usize,
    a: CentralEvent,
    b: CentralEvent,
    r: (Option<PeerAddress>, SplitMessage),
    s: (Option<PeerAddress>, SplitMessage),
)
    requires
        message_for_event.ensures((id, a), r),
        message_for_event.ensures((id, b), s),
    ensures
        r.1 == s.1 ==> a == b,
        r.0 is Some <==> a is ClearPeer,
        r.0 matches Some(p) ==> !p.is_valid,
        a is Indicator ==> r.1 is KeyboardIndicator,
        a is Layer ==> r.1 is Layer,
        a is Connection ==> r.1 is ConnectionStatus,
        a is ClearPeer ==> r.1 is ClearPeer,
        a is Sleep ==> r.1 is SleepState,
        a is Wpm ==> r.1 is Wpm,
        a is Modifier ==> r.1 is Modifier,
{
}

} // verus!
