//! Plain data shared by the keyboard, its split halves and its host protocols.

use vstd::prelude::*;

verus! {

// ---------------------------------------------------------------------------
// Actions and keys
// ---------------------------------------------------------------------------

/// Actions for controlling the keyboard or changing the keyboard's state, for
/// example, enable/disable a particular function.
#[derive(Debug, Copy, Clone, PartialEq, Eq, Structural)]
#[non_exhaustive]
pub enum KeyboardAction {
    /// Jump to the bootloader on key release, for firmware flashing.
    Bootloader,
    /// Reboot the keyboard on key release.
    Reboot,
    /// Reset the storage to default on key release.
    ClearEeprom,
    /// Enable combos.
    ComboOn,
    /// Disable combos.
    ComboOff,
    /// Toggle combos.
    ComboToggle,
    /// Toggle Caps Word.
    CapsWordToggle,
}

/// Stable identity of one logical key within a topology revision.
#[derive(Clone, Copy, Debug, Eq, Hash, Ord, PartialEq, PartialOrd, Structural)]
pub struct KeyId(pub u16);

/// A HID keyboard usage. Usage 0 stands for "no key".
#[derive(Clone, Copy, Debug, PartialEq, Eq, Structural)]
pub struct HidKeyCode(pub u8);

impl HidKeyCode {
    pub open spec fn spec_is_modifier(self) -> bool {
        0xe0 <= self.0 <= 0xe7
    }

    /// Whether the usage is one of the eight modifier keys.
    pub fn is_modifier(self) -> (r: bool)
        ensures
            r == self.spec_is_modifier(),
    {
        0xe0 <= self.0 && self.0 <= 0xe7
    }
}

/// A key on one of the usage pages a keyboard sends.
#[derive(Clone, Copy, Debug, PartialEq, Eq, Structural)]
pub enum KeyCode {
    Hid(HidKeyCode),
    Consumer(u16),
    SystemControl(u8),
}

/// A set of modifiers, one bit each.
#[derive(Clone, Copy, Debug, PartialEq, Eq, Structural)]
pub struct ModifierCombination(pub u8);

/// What a key does once it has been resolved.
#[derive(Clone, Copy, Debug, PartialEq, Eq, Structural)]
pub enum Action {
    No,
    Key(KeyCode),
    Modifier(ModifierCombination),
    KeyWithModifier(HidKeyCode, ModifierCombination),
    LayerOn(u8),
    LayerOnWithModifier(u8, ModifierCombination),
    LayerToggle(u8),
    LayerToggleOnly(u8),
    DefaultLayer(u8),
    PersistentDefaultLayer(u8),
    TriggerMacro(u8),
    OneShotModifier(ModifierCombination),
    OneShotLayer(u8),
    KeyboardControl(KeyboardAction),
    Light(u8),
    Special(u8),
    Steno(u8),
    User(u8),
}

// ---------------------------------------------------------------------------
// Input events
// ---------------------------------------------------------------------------

/// Where an input came from.
#[derive(Clone, Copy, Debug, PartialEq, Eq, Structural)]
pub enum KeyboardEventPos {
    /// A key of the matrix.
    Key { row: u8, col: u8 },
    /// A rotary encoder and the direction it turned in.
    RotaryEncoder { id: u8, clockwise: bool },
}

/// A key went down or came up.
#[derive(Clone, Copy, Debug, PartialEq, Eq, Structural)]
pub struct KeyboardEvent {
    pub pos: KeyboardEventPos,
    pub pressed: bool,
}

impl KeyboardEvent {
    pub fn key(row: u8, col: u8, pressed: bool) -> (r: Self)
        ensures
            r == (KeyboardEvent { pos: KeyboardEventPos::Key { row, col }, pressed }),
    {
        KeyboardEvent { pos: KeyboardEventPos::Key { row, col }, pressed }
    }
}

#[derive(Clone, Copy, Debug, PartialEq, Eq, Structural)]
pub enum Axis {
    X,
    Y,
    Z,
}

#[derive(Clone, Copy, Debug, PartialEq, Eq, Structural)]
pub enum AxisValType {
    Rel,
    Abs,
}

#[derive(Clone, Copy, Debug, PartialEq, Eq, Structural)]
pub struct AxisEvent {
    pub typ: AxisValType,
    pub axis: Axis,
    pub value: i16,
}

/// Motion of a pointing device, one entry per axis.
#[derive(Clone, Copy, Debug, PartialEq, Eq)]
pub struct PointingEvent {
    pub device_id: u8,
    pub axes: [AxisEvent; 3],
}

/// A raw battery reading of the ADC.
#[derive(Clone, Copy, Debug, PartialEq, Eq, Structural)]
pub struct BatteryAdcEvent(pub u16);

// ---------------------------------------------------------------------------
// Status
// ---------------------------------------------------------------------------

#[derive(Clone, Copy, Debug, PartialEq, Eq, Structural)]
pub enum ChargeState {
    Charging,
    Discharging,
}

#[derive(Clone, Copy, Debug, PartialEq, Eq, Structural)]
pub enum BatteryStatus {
    Unavailable,
    Available { charge_state: ChargeState, level: Option<u8> },
}

impl BatteryStatus {
    /// The charge level, where one is known.
    pub open spec fn spec_level(self) -> Option<u8> {
        match self {
            BatteryStatus::Available { level, .. } => level,
            BatteryStatus::Unavailable => None,
        }
    }

    pub fn level(self) -> (r: Option<u8>)
        ensures
            r == self.spec_level(),
    {
        match self {
            BatteryStatus::Available { level, .. } => level,
            BatteryStatus::Unavailable => None,
        }
    }
}

#[derive(Clone, Copy, Debug, PartialEq, Eq, Structural)]
pub enum BleState {
    Inactive,
    Advertising,
    Connected,
}

#[derive(Clone, Copy, Debug, PartialEq, Eq, Structural)]
pub struct BleStatus {
    pub profile: u8,
    pub state: BleState,
    pub bonded: bool,
}

/// Which transports are up, as the central tells its peripherals.
#[derive(Clone, Copy, Debug, PartialEq, Eq, Structural)]
pub struct ConnectionStatus {
    pub usb: bool,
    pub ble: BleStatus,
}

impl ConnectionStatus {
    pub open spec fn spec_new() -> Self {
        ConnectionStatus {
            usb: false,
            ble: BleStatus { profile: 0, state: BleState::Inactive, bonded: false },
        }
    }

    /// Nothing connected.
    pub fn new() -> (r: Self)
        ensures
            r == Self::spec_new(),
    {
        ConnectionStatus {
            usb: false,
            ble: BleStatus { profile: 0, state: BleState::Inactive, bonded: false },
        }
    }
}

/// Progress of a firmware update, as LEDs and hosts see it.
#[derive(Clone, Copy, Debug, PartialEq, Eq, Structural)]
pub enum DfuStatus {
    Idle,
    Started,
    Downloading,
    Finished,
    Error,
    LockWaiting,
    LockUnlocked,
}

// ---------------------------------------------------------------------------
// HID reports
// ---------------------------------------------------------------------------

#[derive(Clone, Copy, Debug, PartialEq, Eq)]
pub struct KeyboardReport {
    pub modifier: u8,
    pub reserved: u8,
    pub leds: u8,
    pub keycodes: [u8; 6],
}

#[derive(Clone, Copy, Debug, PartialEq, Eq, Structural)]
pub struct MouseReport {
    pub buttons: u8,
    pub x: i8,
    pub y: i8,
    pub wheel: i8,
    pub pan: i8,
}

#[derive(Clone, Copy, Debug, PartialEq, Eq, Structural)]
pub struct MediaKeyboardReport {
    pub usage_id: u16,
}

#[derive(Clone, Copy, Debug, PartialEq, Eq, Structural)]
pub struct SystemControlReport {
    pub usage_id: u8,
}

/// A report for the host.
#[derive(Clone, Copy, Debug, PartialEq, Eq)]
pub enum Report {
    KeyboardReport(KeyboardReport),
    MouseReport(MouseReport),
    MediaKeyboardReport(MediaKeyboardReport),
    SystemControlReport(SystemControlReport),
}

// ---------------------------------------------------------------------------
// Laws
// ---------------------------------------------------------------------------

/// The modifiers are the eight codes of one group, which share all but their three lowest bits.
pub proof fn law_the_modifiers_are_one_group_of_eight(key: HidKeyCode, n: int)
    ensures
        key.spec_is_modifier() <==> key.0 / 8 == 28,
        0 <= n < 8 && key.0 == 224 + n ==> key.spec_is_modifier(),
        key.0 == 223 || key.0 == 232 ==> !key.spec_is_modifier(),
{
}

} // verus!
