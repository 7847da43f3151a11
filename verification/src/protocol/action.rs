//! Actions and key events on the wire: the number of the variant, then its fields.

use vstd::prelude::*;
use crate::event::action::ActionEvent;
use crate::protocol::wire::{
    encode_u32, first_byte, first_flag, law_short_round_trip, lemma_small_number, lemma_varint_len,
    pow128, push_all, take_byte, take_flag, take_number, take_short, take_u16, take_u32, varint,
};
use crate::types::{
    Action, HidKeyCode, KeyCode, KeyboardAction, KeyboardEvent, KeyboardEventPos,
    ModifierCombination,
};

verus! {

/// Most bytes of an encoded action.
pub const ACTION_MAX_SIZE: usize = 5;

/// Most bytes of an encoded key event.
pub const KEYBOARD_EVENT_MAX_SIZE: usize = 4;

/// Most bytes of an encoded action event. Its sticky flag takes none.
pub const ACTION_EVENT_MAX_SIZE: usize = ACTION_MAX_SIZE + KEYBOARD_EVENT_MAX_SIZE;

/// The number of a keyboard action.
pub open spec fn control_number(action: KeyboardAction) -> u8 {
    match action {
        KeyboardAction::Bootloader => 0,
        KeyboardAction::Reboot => 1,
        KeyboardAction::ClearEeprom => 2,
        KeyboardAction::ComboOn => 3,
        KeyboardAction::ComboOff => 4,
        KeyboardAction::ComboToggle => 5,
        KeyboardAction::CapsWordToggle => 6,
    }
}

/// The keyboard action of a number.
pub open spec fn control_of(number: u32) -> Option<KeyboardAction> {
    if number == 0 {
        Some(KeyboardAction::Bootloader)
    } else if number == 1 {
        Some(KeyboardAction::Reboot)
    } else if number == 2 {
        Some(KeyboardAction::ClearEeprom)
    } else if number == 3 {
        Some(KeyboardAction::ComboOn)
    } else if number == 4 {
        Some(KeyboardAction::ComboOff)
    } else if number == 5 {
        Some(KeyboardAction::ComboToggle)
    } else if number == 6 {
        Some(KeyboardAction::CapsWordToggle)
    } else {
        None
    }
}

/// The bytes of a key code.
pub open spec fn keycode_bytes(key: KeyCode) -> Seq<u8> {
    match key {
        KeyCode::Hid(k) => seq![0u8, k.0],
        KeyCode::Consumer(usage) => seq![1u8] + varint(usage as nat),
        KeyCode::SystemControl(usage) => seq![2u8, usage],
    }
}

/// The bytes of an action.
#[verifier::opaque]
pub open spec fn action_bytes(action: Action) -> Seq<u8> {
    match action {
        Action::No => seq![0u8],
        Action::Key(key) => seq![1u8] + keycode_bytes(key),
        Action::Modifier(m) => seq![2u8, m.0],
        Action::KeyWithModifier(k, m) => seq![3u8, k.0, m.0],
        Action::LayerOn(l) => seq![4u8, l],
        Action::LayerOnWithModifier(l, m) => seq![5u8, l, m.0],
        Action::LayerToggle(l) => seq![6u8, l],
        Action::LayerToggleOnly(l) => seq![7u8, l],
        Action::DefaultLayer(l) => seq![8u8, l],
        Action::PersistentDefaultLayer(l) => seq![9u8, l],
        Action::TriggerMacro(n) => seq![10u8, n],
        Action::OneShotModifier(m) => seq![11u8, m.0],
        Action::OneShotLayer(l) => seq![12u8, l],
        Action::KeyboardControl(a) => seq![13u8, control_number(a)],
        Action::Light(n) => seq![14u8, n],
        Action::Special(n) => seq![15u8, n],
        Action::Steno(n) => seq![16u8, n],
        Action::User(n) => seq![17u8, n],
    }
}

/// The key code at the start of `s`, and what follows it.
pub open spec fn take_keycode(s: Seq<u8>) -> Option<(KeyCode, Seq<u8>)> {
    match take_number(s) {
        None => None,
        Some((number, fields)) => if number == 0 {
            match first_byte(fields) {
                Some((key, rest)) => Some((KeyCode::Hid(HidKeyCode(key)), rest)),
                None => None,
            }
        } else if number == 1 {
            match take_short(fields) {
                Some((usage, rest)) => Some((KeyCode::Consumer(usage), rest)),
                None => None,
            }
        } else if number == 2 {
            match first_byte(fields) {
                Some((usage, rest)) => Some((KeyCode::SystemControl(usage), rest)),
                None => None,
            }
        } else {
            None
        },
    }
}

/// The action with one field of one byte, by its number.
pub open spec fn plain_action(number: u32, field: u8) -> Option<Action> {
    if number == 2 {
        Some(Action::Modifier(ModifierCombination(field)))
    } else if number == 4 {
        Some(Action::LayerOn(field))
    } else if number == 6 {
        Some(Action::LayerToggle(field))
    } else if number == 7 {
        Some(Action::LayerToggleOnly(field))
    } else if number == 8 {
        Some(Action::DefaultLayer(field))
    } else if number == 9 {
        Some(Action::PersistentDefaultLayer(field))
    } else if number == 10 {
        Some(Action::TriggerMacro(field))
    } else if number == 11 {
        Some(Action::OneShotModifier(ModifierCombination(field)))
    } else if number == 12 {
        Some(Action::OneShotLayer(field))
    } else if number == 14 {
        Some(Action::Light(field))
    } else if number == 15 {
        Some(Action::Special(field))
    } else if number == 16 {
        Some(Action::Steno(field))
    } else if number == 17 {
        Some(Action::User(field))
    } else {
        None
    }
}

/// The two bytes at the start of `s`, and what follows them.
pub open spec fn two_bytes(s: Seq<u8>) -> Option<(u8, u8, Seq<u8>)> {
    match first_byte(s) {
        Some((a, tail)) => match first_byte(tail) {
            Some((b, rest)) => Some((a, b, rest)),
            None => None,
        },
        None => None,
    }
}

/// The action at the start of `s`, and what follows it.
#[verifier::opaque]
pub open spec fn take_action(s: Seq<u8>) -> Option<(Action, Seq<u8>)> {
    match take_number(s) {
        None => None,
        Some((number, fields)) => if number == 0 {
            Some((Action::No, fields))
        } else if number == 1 {
            match take_keycode(fields) {
                Some((key, rest)) => Some((Action::Key(key), rest)),
                None => None,
            }
        } else if number == 3 {
            match two_bytes(fields) {
                Some((k, m, rest)) => Some(
                    (Action::KeyWithModifier(HidKeyCode(k), ModifierCombination(m)), rest),
                ),
                None => None,
            }
        } else if number == 5 {
            match two_bytes(fields) {
                Some((l, m, rest)) => Some(
                    (Action::LayerOnWithModifier(l, ModifierCombination(m)), rest),
                ),
                None => None,
            }
        } else if number == 13 {
            match take_number(fields) {
                Some((control, rest)) => match control_of(control) {
                    Some(a) => Some((Action::KeyboardControl(a), rest)),
                    None => None,
                },
                None => None,
            }
        } else {
            match first_byte(fields) {
                Some((field, rest)) => match plain_action(number, field) {
                    Some(action) => Some((action, rest)),
                    None => None,
                },
                None => None,
            }
        },
    }
}

fn control_code(action: KeyboardAction) -> (r: u8)
    ensures
        r == control_number(action),
{
    match action {
        KeyboardAction::Bootloader => 0,
        KeyboardAction::Reboot => 1,
        KeyboardAction::ClearEeprom => 2,
        KeyboardAction::ComboOn => 3,
        KeyboardAction::ComboOff => 4,
        KeyboardAction::ComboToggle => 5,
        KeyboardAction::CapsWordToggle => 6,
    }
}

fn control_from(number: u32) -> (r: Option<KeyboardAction>)
    ensures
        r == control_of(number),
{
    match number {
        0 => Some(KeyboardAction::Bootloader),
        1 => Some(KeyboardAction::Reboot),
        2 => Some(KeyboardAction::ClearEeprom),
        3 => Some(KeyboardAction::ComboOn),
        4 => Some(KeyboardAction::ComboOff),
        5 => Some(KeyboardAction::ComboToggle),
        6 => Some(KeyboardAction::CapsWordToggle),
        _ => None,
    }
}

fn push_one(out: &mut Vec<u8>, number: u8, field: u8)
    ensures
        final(out)@ == old(out)@ + seq![number, field],
{
    out.push(number);
    out.push(field);
    assert(out@ =~= old(out)@ + seq![number, field]);
}

/// Append the bytes of an action.
pub fn encode_action(out: &mut Vec<u8>, action: Action)
    ensures
        final(out)@ == old(out)@ + action_bytes(action),
        1 <= action_bytes(action).len() <= ACTION_MAX_SIZE,
{
    proof {
        reveal(action_bytes);
        if let Action::Key(KeyCode::Consumer(usage)) = action {
            reveal_with_fuel(pow128, 4);
            lemma_varint_len(usage as nat, 3);
        }
    }
    match action {
        Action::No => {
            out.push(0);
            assert(out@ =~= old(out)@ + action_bytes(action));
        },
        Action::Key(KeyCode::Hid(k)) => {
            out.push(1);
            push_one(out, 0, k.0);
            assert(out@ =~= old(out)@ + action_bytes(action));
        },
        Action::Key(KeyCode::Consumer(usage)) => {
            out.push(1);
            out.push(1);
            let number = encode_u32(usage as u32);
            push_all(out, number.as_slice());
            assert(out@ =~= old(out)@ + action_bytes(action));
        },
        Action::Key(KeyCode::SystemControl(usage)) => {
            out.push(1);
            push_one(out, 2, usage);
            assert(out@ =~= old(out)@ + action_bytes(action));
        },
        Action::KeyWithModifier(k, m) => {
            push_one(out, 3, k.0);
            out.push(m.0);
            assert(out@ =~= old(out)@ + action_bytes(action));
        },
        Action::LayerOnWithModifier(l, m) => {
            push_one(out, 5, l);
            out.push(m.0);
            assert(out@ =~= old(out)@ + action_bytes(action));
        },
        Action::Modifier(m) => push_one(out, 2, m.0),
        Action::LayerOn(l) => push_one(out, 4, l),
        Action::LayerToggle(l) => push_one(out, 6, l),
        Action::LayerToggleOnly(l) => push_one(out, 7, l),
        Action::DefaultLayer(l) => push_one(out, 8, l),
        Action::PersistentDefaultLayer(l) => push_one(out, 9, l),
        Action::TriggerMacro(n) => push_one(out, 10, n),
        Action::OneShotModifier(m) => push_one(out, 11, m.0),
        Action::OneShotLayer(l) => push_one(out, 12, l),
        Action::KeyboardControl(a) => push_one(out, 13, control_code(a)),
        Action::Light(n) => push_one(out, 14, n),
        Action::Special(n) => push_one(out, 15, n),
        Action::Steno(n) => push_one(out, 16, n),
        Action::User(n) => push_one(out, 17, n),
    }
}

fn from_plain(number: u32, field: u8) -> (r: Option<Action>)
    ensures
        r == plain_action(number, field),
{
    match number {
        2 => Some(Action::Modifier(ModifierCombination(field))),
        4 => Some(Action::LayerOn(field)),
        6 => Some(Action::LayerToggle(field)),
        7 => Some(Action::LayerToggleOnly(field)),
        8 => Some(Action::DefaultLayer(field)),
        9 => Some(Action::PersistentDefaultLayer(field)),
        10 => Some(Action::TriggerMacro(field)),
        11 => Some(Action::OneShotModifier(ModifierCombination(field))),
        12 => Some(Action::OneShotLayer(field)),
        14 => Some(Action::Light(field)),
        15 => Some(Action::Special(field)),
        16 => Some(Action::Steno(field)),
        17 => Some(Action::User(field)),
        _ => None,
    }
}

fn decode_keycode(s: &[u8]) -> (r: Option<(KeyCode, &[u8])>)
    ensures
        match r {
            Some((key, rest)) => take_keycode(s@) == Some((key, rest@)),
            None => take_keycode(s@) is None,
        },
{
    let (number, fields) = match take_u32(s) {
        Some(p) => p,
        None => return None,
    };
    match number {
        0 => match take_byte(fields) {
            Some((key, rest)) => Some((KeyCode::Hid(HidKeyCode(key)), rest)),
            None => None,
        },
        1 => match take_u16(fields) {
            Some((usage, rest)) => Some((KeyCode::Consumer(usage), rest)),
            None => None,
        },
        2 => match take_byte(fields) {
            Some((usage, rest)) => Some((KeyCode::SystemControl(usage), rest)),
            None => None,
        },
        _ => None,
    }
}

fn take_two(s: &[u8]) -> (r: Option<(u8, u8, &[u8])>)
    ensures
        match r {
            Some((a, b, rest)) => two_bytes(s@) == Some((a, b, rest@)),
            None => two_bytes(s@) is None,
        },
{
    match take_byte(s) {
        Some((a, tail)) => match take_byte(tail) {
            Some((b, rest)) => Some((a, b, rest)),
            None => None,
        },
        None => None,
    }
}

/// Read an action from the start of some bytes.
pub fn decode_action(s: &[u8]) -> (r: Option<(Action, &[u8])>)
    ensures
        match r {
            Some((action, rest)) => take_action(s@) == Some((action, rest@)),
            None => take_action(s@) is None,
        },
{
    proof {
        reveal(take_action);
    }
    let (number, fields) = match take_u32(s) {
        Some(p) => p,
        None => return None,
    };
    match number {
        0 => Some((Action::No, fields)),
        1 => match decode_keycode(fields) {
            Some((key, rest)) => Some((Action::Key(key), rest)),
            None => None,
        },
        3 => match take_two(fields) {
            Some((k, m, rest)) => Some(
                (Action::KeyWithModifier(HidKeyCode(k), ModifierCombination(m)), rest),
            ),
            None => None,
        },
        5 => match take_two(fields) {
            Some((l, m, rest)) => Some(
                (Action::LayerOnWithModifier(l, ModifierCombination(m)), rest),
            ),
            None => None,
        },
        13 => match take_u32(fields) {
            Some((control, rest)) => match control_from(control) {
                Some(a) => Some((Action::KeyboardControl(a), rest)),
                None => None,
            },
            None => None,
        },
        _ => match take_byte(fields) {
            Some((field, rest)) => match from_plain(number, field) {
                Some(action) => Some((action, rest)),
                None => None,
            },
            None => None,
        },
    }
}

/// The bytes of a key event.
pub open spec fn event_bytes(event: KeyboardEvent) -> Seq<u8> {
    let pressed: u8 = if event.pressed {
        1
    } else {
        0
    };
    match event.pos {
        KeyboardEventPos::Key { row, col } => seq![0u8, row, col, pressed],
        KeyboardEventPos::RotaryEncoder { id, clockwise } => seq![
            1u8,
            id,
            if clockwise {
                1u8
            } else {
                0u8
            },
            pressed,
        ],
    }
}

/// The place of a key event at the start of `s`, and what follows it.
pub open spec fn take_pos(s: Seq<u8>) -> Option<(KeyboardEventPos, Seq<u8>)> {
    match take_number(s) {
        None => None,
        Some((number, fields)) => if number == 0 {
            match two_bytes(fields) {
                Some((row, col, rest)) => Some((KeyboardEventPos::Key { row, col }, rest)),
                None => None,
            }
        } else if number == 1 {
            match first_byte(fields) {
                Some((id, tail)) => match first_flag(tail) {
                    Some((clockwise, rest)) => Some(
                        (KeyboardEventPos::RotaryEncoder { id, clockwise }, rest),
                    ),
                    None => None,
                },
                None => None,
            }
        } else {
            None
        },
    }
}

/// The key event at the start of `s`, and what follows it.
pub open spec fn take_event(s: Seq<u8>) -> Option<(KeyboardEvent, Seq<u8>)> {
    match take_pos(s) {
        Some((pos, tail)) => match first_flag(tail) {
            Some((pressed, rest)) => Some((KeyboardEvent { pos, pressed }, rest)),
            None => None,
        },
        None => None,
    }
}

fn decode_pos(s: &[u8]) -> (r: Option<(KeyboardEventPos, &[u8])>)
    ensures
        match r {
            Some((pos, rest)) => take_pos(s@) == Some((pos, rest@)),
            None => take_pos(s@) is None,
        },
{
    let (number, fields) = match take_u32(s) {
        Some(p) => p,
        None => return None,
    };
    match number {
        0 => match take_two(fields) {
            Some((row, col, rest)) => Some((KeyboardEventPos::Key { row, col }, rest)),
            None => None,
        },
        1 => match take_byte(fields) {
            Some((id, tail)) => match take_flag(tail) {
                Some((clockwise, rest)) => Some(
                    (KeyboardEventPos::RotaryEncoder { id, clockwise }, rest),
                ),
                None => None,
            },
            None => None,
        },
        _ => None,
    }
}

/// The action event at the start of `s`. An event off the wire is not sticky.
pub open spec fn decoded_event(s: Seq<u8>) -> Option<ActionEvent> {
    match take_action(s) {
        Some((action, rest)) => match take_event(rest) {
            Some((keyboard_event, _)) => Some(
                ActionEvent { action, keyboard_event, is_sticky: false },
            ),
            None => None,
        },
        None => None,
    }
}

impl ActionEvent {
    /// The bytes of the event on the wire.
    pub open spec fn wire_bytes(self) -> Seq<u8> {
        action_bytes(self.action) + event_bytes(self.keyboard_event)
    }

    /// Encode the event for the wire. The sticky flag is left out.
    pub fn encode(&self) -> (r: Vec<u8>)
        ensures
            r@ == self.wire_bytes(),
            r@.len() <= ACTION_EVENT_MAX_SIZE,
    {
        let mut out: Vec<u8> = Vec::new();
        encode_action(&mut out, self.action);
        let ghost first = out@;
        assert(first =~= action_bytes(self.action));
        match self.keyboard_event.pos {
            KeyboardEventPos::Key { row, col } => {
                out.push(0);
                out.push(row);
                out.push(col);
            },
            KeyboardEventPos::RotaryEncoder { id, clockwise } => {
                out.push(1);
                out.push(id);
                if clockwise {
                    out.push(1);
                } else {
                    out.push(0);
                }
            },
        }
        if self.keyboard_event.pressed {
            out.push(1);
        } else {
            out.push(0);
        }
        assert(out@ =~= self.wire_bytes());
        out
    }

    /// Read an event from the start of some bytes.
    pub fn decode(s: &[u8]) -> (r: Option<Self>)
        ensures
            match r {
                Some(event) => decoded_event(s@) == Some(event),
                None => decoded_event(s@) is None,
            },
    {
        match decode_action(s) {
            None => None,
            Some((action, rest)) => {
                match decode_pos(rest) {
                    None => None,
                    Some((pos, tail)) => match take_flag(tail) {
                        Some((pressed, _)) => Some(
                            ActionEvent::new(action, KeyboardEvent { pos, pressed }),
                        ),
                        None => None,
                    },
                }
            },
        }
    }
}

// ---------------------------------------------------------------------------
// Laws
// ---------------------------------------------------------------------------

/// An action reads back as it was written, and what follows it is left.
pub proof fn law_action_round_trip(action: Action, rest: Seq<u8>)
    ensures
        take_action(action_bytes(action) + rest) == Some((action, rest)),
        1 <= action_bytes(action).len() <= ACTION_MAX_SIZE,
{
    reveal(action_bytes);
    reveal(take_action);
    let bytes = action_bytes(action);
    let s = bytes + rest;
    let fields = s.skip(1);
    lemma_small_number(s);
    match action {
        Action::No => {
            assert(fields =~= rest);
        },
        Action::Key(key) => {
            assert(fields =~= keycode_bytes(key) + rest);
            lemma_small_number(fields);
            match key {
                KeyCode::Consumer(usage) => {
                    law_short_round_trip(usage, rest);
                    assert(fields.skip(1) =~= varint(usage as nat) + rest);
                },
                _ => {
                    assert(fields.skip(1).skip(1) =~= rest);
                },
            }
        },
        Action::KeyWithModifier(_, _) | Action::LayerOnWithModifier(_, _) => {
            assert(fields.skip(1).skip(1) =~= rest);
        },
        Action::KeyboardControl(_) => {
            lemma_small_number(fields);
            assert(fields.skip(1) =~= rest);
        },
        _ => {
            assert(fields.skip(1) =~= rest);
        },
    }
}

/// An event reads back from the wire as it was written, but for the sticky flag,
/// which is cleared.
pub proof fn law_action_event_round_trip(event: ActionEvent)
    ensures
        decoded_event(event.wire_bytes()) == Some(ActionEvent { is_sticky: false, ..event }),
{
    let tail = event_bytes(event.keyboard_event);
    law_action_round_trip(event.action, tail);
    lemma_small_number(tail);
    assert(tail.skip(1).skip(1).skip(1) =~= tail.skip(3));
}

/// The sticky flag does not change the bytes on the wire.
pub proof fn law_the_sticky_flag_stays_local(a: ActionEvent, b: ActionEvent)
    requires
        a.action == b.action,
        a.keyboard_event == b.keyboard_event,
    ensures
        a.wire_bytes() == b.wire_bytes(),
{
}

/// An action is told by its number, which is its place among the actions, and its fields follow
/// in their order.
pub proof fn law_an_action_is_told_by_its_number(
    n: u8,
    m: ModifierCombination,
    k: HidKeyCode,
    key: KeyCode,
    a: KeyboardAction,
)
    ensures
        action_bytes(Action::No) == seq![0u8],
        action_bytes(Action::Key(key)) == seq![1u8] + keycode_bytes(key),
        action_bytes(Action::Modifier(m)) == seq![2u8, m.0],
        action_bytes(Action::KeyWithModifier(k, m)) == seq![3u8, k.0, m.0],
        action_bytes(Action::LayerOn(n)) == seq![4u8, n],
        action_bytes(Action::LayerOnWithModifier(n, m)) == seq![5u8, n, m.0],
        action_bytes(Action::LayerToggle(n)) == seq![6u8, n],
        action_bytes(Action::LayerToggleOnly(n)) == seq![7u8, n],
        action_bytes(Action::DefaultLayer(n)) == seq![8u8, n],
        action_bytes(Action::PersistentDefaultLayer(n)) == seq![9u8, n],
        action_bytes(Action::TriggerMacro(n)) == seq![10u8, n],
        action_bytes(Action::OneShotModifier(m)) == seq![11u8, m.0],
        action_bytes(Action::OneShotLayer(n)) == seq![12u8, n],
        action_bytes(Action::KeyboardControl(a)).len() == 2 && action_bytes(
            Action::KeyboardControl(a),
        )[0] == 13,
        action_bytes(Action::Light(n)) == seq![14u8, n],
        action_bytes(Action::Special(n)) == seq![15u8, n],
        action_bytes(Action::Steno(n)) == seq![16u8, n],
        action_bytes(Action::User(n)) == seq![17u8, n],
{
    reveal(action_bytes);
}

/// A key code is told by its usage page: 0 for the keyboard, 1 for consumer controls and 2 for
/// system controls.
pub proof fn law_a_key_code_is_told_by_its_page(key: KeyCode)
    ensures
        keycode_bytes(key)[0] == (match key {
            KeyCode::Hid(_) => 0int,
            KeyCode::Consumer(_) => 1,
            KeyCode::SystemControl(_) => 2,
        }),
        key matches KeyCode::Hid(k) ==> keycode_bytes(key).len() == 2 && keycode_bytes(key)[1]
            == k.0,
        key matches KeyCode::SystemControl(n) ==> keycode_bytes(key).len() == 2 && keycode_bytes(
            key,
        )[1] == n,
        key matches KeyCode::Consumer(n) ==> keycode_bytes(key).drop_first() == varint(n as nat),
{
    if let KeyCode::Consumer(n) = key {
        assert(keycode_bytes(key).drop_first() =~= varint(n as nat));
    }
}

/// The keyboard actions are numbered in their order, without a gap.
pub proof fn law_keyboard_actions_are_numbered_in_order(a: KeyboardAction, number: u32)
    ensures
        control_of(control_number(a) as u32) == Some(a),
        control_of(number) is Some <==> number <= 6,
        control_number(a) == (match a {
            KeyboardAction::Bootloader => 0int,
            KeyboardAction::Reboot => 1,
            KeyboardAction::ClearEeprom => 2,
            KeyboardAction::ComboOn => 3,
            KeyboardAction::ComboOff => 4,
            KeyboardAction::ComboToggle => 5,
            KeyboardAction::CapsWordToggle => 6,
        }),
{
}

/// A key event is four bytes: whether a key or an encoder, which of them, and last whether it
/// went down.
pub proof fn law_a_key_event_is_four_bytes(event: KeyboardEvent)
    ensures
        event_bytes(event).len() == 4,
        event_bytes(event)[3] == 1 <==> event.pressed,
        event_bytes(event)[3] <= 1,
        match event.pos {
            KeyboardEventPos::Key { row, col } => event_bytes(event)[0] == 0 && event_bytes(
                event,
            )[1] == row && event_bytes(event)[2] == col,
            KeyboardEventPos::RotaryEncoder { id, clockwise } => event_bytes(event)[0] == 1
                && event_bytes(event)[1] == id && event_bytes(event)[2] <= 1 && (event_bytes(
                event,
            )[2] == 1 <==> clockwise),
        },
{
}

} // verus!
