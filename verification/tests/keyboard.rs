//! Deadlines, one-shot keys, sticky keys and key matrices.

use rmk::event::dfu::DfuStatusEvent;
use rmk::event::dongle::DongleState;
use rmk::keyboard::deadline::{Deadline, DeadlineKey, DeadlineSet};
use rmk::keyboard::oneshot::{OneShotEffect, OneShotKeys, OneShotState};
use rmk::keyboard::sticky::{
    catch_up_report, sticky_deadline, OutputSnapshot, StickyPhase, StickyStep, StickyTable,
    STICKY_MAX,
};
use rmk::keyboard::sticky_key::{
    any_visible, ends_latch, settle_report, LatchState, StickyKeyPolicy, StickyKeys,
    StickyReleaseMode, MAX_ACTIVE,
};
use rmk::matrix::direct_pin::{DebounceState, DirectPinMatrix, MATRIX_IDLE_SCAN_MS};
use rmk::processor::dfu_led::{DfuLedProcessor, LedAction, ERROR_BLINK_CYCLES};
use rmk::sticky::{
    IgnoreList, StickyFlags, StickyProfile, StickyProfiles, STICKY_IGNORE_MAX, STICKY_PROFILE_LAYER,
};
use rmk::time::{Duration, Instant};
use rmk::types::{
    Action, DfuStatus, HidKeyCode, KeyCode, KeyboardEvent, KeyboardEventPos, ModifierCombination,
};

// --- Deadlines --------------------------------------------------------------

#[derive(Clone, Copy, PartialEq)]
enum TestKey {
    A,
    B,
    C,
}

impl DeadlineKey for TestKey {
    fn spec_slot(self) -> usize {
        self.slot()
    }

    fn slot(self) -> usize {
        match self {
            TestKey::A => 0,
            TestKey::B => 1,
            TestKey::C => 2,
        }
    }
}

type TestSet = DeadlineSet<TestKey, 3>;

fn at(ticks: u64) -> Instant {
    Instant::from_ticks(ticks)
}

#[test]
fn empty_set_has_no_deadline() {
    let set = TestSet::new();
    assert_eq!(set.next(), None);
    assert!(!set.is_due(TestKey::A, at(1000)));
}

#[test]
fn set_get_clear_roundtrip() {
    let mut set = TestSet::new();
    set.set(TestKey::B, at(500));
    assert_eq!(set.get(TestKey::B), Some(at(500)));
    assert!(set.is_due(TestKey::B, at(500)));
    assert!(!set.is_due(TestKey::B, at(499)));
    set.clear(TestKey::B);
    assert_eq!(set.get(TestKey::B), None);
    assert_eq!(set.next(), None);
}

#[test]
fn next_returns_minimum_across_slots() {
    let mut set = TestSet::new();
    set.set(TestKey::C, at(900));
    set.set(TestKey::A, at(300));
    set.set(TestKey::B, at(600));
    assert_eq!(set.next(), Some(at(300)));
    set.clear(TestKey::A);
    assert_eq!(set.next(), Some(at(600)));
    set.clear(TestKey::B);
    assert_eq!(set.next(), Some(at(900)));
}

#[test]
fn set_overwrites_either_direction() {
    let mut set = TestSet::new();
    set.set(TestKey::A, at(500));
    set.set(TestKey::A, at(100));
    assert_eq!(set.get(TestKey::A), Some(at(100)));
}

#[test]
fn extend_only_pushes_forward() {
    let mut set = TestSet::new();
    set.extend(TestKey::A, at(500));
    assert_eq!(set.get(TestKey::A), Some(at(500)));
    set.extend(TestKey::A, at(300));
    assert_eq!(set.get(TestKey::A), Some(at(500)));
    set.extend(TestKey::A, at(700));
    assert_eq!(set.get(TestKey::A), Some(at(700)));
}

#[test]
fn set_or_clear_mirrors_the_source() {
    let mut set = TestSet::new();
    set.set_or_clear(TestKey::A, Some(at(500)));
    assert_eq!(set.get(TestKey::A), Some(at(500)));
    set.set_or_clear(TestKey::A, None);
    assert_eq!(set.get(TestKey::A), None);
    set.set_or_clear(TestKey::B, None);
    assert_eq!(set.get(TestKey::B), None);
}

#[test]
fn zero_tick_deadline_clamps_to_one() {
    let mut set = TestSet::new();
    set.set(TestKey::A, at(0));
    assert_eq!(set.get(TestKey::A), Some(at(1)));
}

#[test]
fn compact_repr_stays_a_word() {
    assert_eq!(core::mem::size_of::<Option<Deadline>>(), 8);
    assert_eq!(core::mem::size_of::<TestSet>(), 24);
}

#[test]
fn a_deadline_keeps_its_instant() {
    assert_eq!(Deadline::new(at(42)).instant(), at(42));
    assert_eq!(Deadline::new(at(0)).instant(), at(1));
}

// --- One-shot keys ----------------------------------------------------------

const SHIFT: ModifierCombination = ModifierCombination(0b10);
const CTRL: ModifierCombination = ModifierCombination(0b01);

fn ms(millis: u64) -> Duration {
    Duration::from_millis(millis)
}

#[test]
fn a_tapped_one_shot_modifier_serves_the_next_key_only() {
    let mut keys = OneShotKeys::new();
    assert!(keys.process_action_osm(SHIFT, true, false, at(0), ms(500)).is_empty());
    assert!(matches!(keys.osm, OneShotState::Initial(m) if m == SHIFT));
    assert!(keys.process_action_osm(SHIFT, false, false, at(10), ms(500)).is_empty());
    assert_eq!(keys.osm.deadline(), Some(at(500_010)));
    assert_eq!(keys.osm.value(), Some(&SHIFT));
    assert!(keys.update_osm(true));
    assert!(matches!(keys.osm, OneShotState::Inactive));
    assert!(!keys.update_osm(true));
}

#[test]
fn a_second_tap_takes_the_modifier_back() {
    let mut keys = OneShotKeys::new();
    keys.process_action_osm(ModifierCombination(0b11), true, false, at(0), ms(500));
    keys.process_action_osm(ModifierCombination(0b11), false, false, at(0), ms(500));
    // Taking one of two back leaves the other armed without a deadline.
    let effects = keys.process_action_osm(SHIFT, true, false, at(1), ms(500));
    assert_eq!(effects.len(), 2);
    assert!(matches!(
        effects[0],
        OneShotEffect::Report { pressed: true, osm: OneShotState::Single(m, _) } if m.0 == 0b11
    ));
    assert!(matches!(
        effects[1],
        OneShotEffect::Report { pressed: true, osm: OneShotState::Single(m, None) } if m == CTRL
    ));
    keys.process_action_osm(CTRL, true, false, at(2), ms(500));
    assert!(matches!(keys.osm, OneShotState::Inactive));
}

#[test]
fn a_one_shot_key_held_through_another_key_is_an_ordinary_one() {
    let mut keys = OneShotKeys::new();
    keys.process_action_osm(SHIFT, true, true, at(0), ms(500));
    keys.process_action_osl(2, true, at(0), ms(500));
    assert!(!keys.update_osm(true));
    assert_eq!(keys.update_osl(true), None);
    assert!(matches!(keys.osm, OneShotState::Held(m) if m == SHIFT));
    // Another modifier's release does not end it.
    assert!(keys.process_action_osm(CTRL, false, true, at(1), ms(500)).is_empty());
    let effects = keys.process_action_osm(SHIFT, false, true, at(1), ms(500));
    assert!(matches!(effects[..], [OneShotEffect::Report { pressed: false, osm: OneShotState::Inactive }]));
    let effects = keys.process_action_osl(2, false, at(1), ms(500));
    assert!(matches!(effects[..], [OneShotEffect::DeactivateLayer(2)]));
}

#[test]
fn a_one_shot_layer_goes_out_with_the_next_key() {
    let mut keys = OneShotKeys::new();
    let effects = keys.process_action_osl(1, true, at(0), ms(500));
    assert!(matches!(effects[..], [OneShotEffect::ActivateLayer(1)]));
    keys.process_action_osl(1, false, at(0), ms(500));
    assert_eq!(keys.update_osl(true), None);
    assert_eq!(keys.update_osl(false), Some(1));
    // Another layer takes its place.
    keys.process_action_osl(1, true, at(0), ms(500));
    let effects = keys.process_action_osl(3, true, at(0), ms(500));
    assert!(matches!(effects[..], [OneShotEffect::DeactivateLayer(1), OneShotEffect::ActivateLayer(3)]));
}

#[test]
fn one_shot_keys_time_out() {
    let mut keys = OneShotKeys::new();
    keys.process_action_osm(SHIFT, true, false, at(0), ms(1));
    keys.process_action_osm(SHIFT, false, false, at(0), ms(1));
    keys.process_action_osl(4, true, at(0), ms(2));
    keys.process_action_osl(4, false, at(0), ms(2));
    assert!(keys.fire_oneshot_timeout(at(999), true).is_empty());
    let effects = keys.fire_oneshot_timeout(at(1000), true);
    assert!(matches!(effects[..], [OneShotEffect::Report { pressed: false, osm: OneShotState::Inactive }]));
    let effects = keys.fire_oneshot_timeout(at(2000), true);
    assert!(matches!(effects[..], [OneShotEffect::DeactivateLayer(4)]));
    assert!(matches!(keys.osl, OneShotState::Inactive));
}

// --- Sticky profiles --------------------------------------------------------

#[test]
fn sticky_flags_are_one_bit_each() {
    let none = StickyFlags::new();
    assert_eq!(none.0, 0);
    assert_eq!(none.with_activate_on_press(true).0, 0b0001);
    assert_eq!(none.with_release_on_next_press(true).0, 0b0010);
    assert_eq!(none.with_release_on_layer_enter(true).0, 0b0100);
    assert_eq!(none.with_release_on_layer_exit(true).0, 0b1000);
    let all = StickyFlags(0b1111);
    assert!(all.activate_on_press() && all.release_on_next_press());
    assert!(all.release_on_layer_enter() && all.release_on_layer_exit());
    assert_eq!(all.with_release_on_layer_enter(false).0, 0b1011);
}

#[test]
fn the_default_sticky_profile_lasts_a_second() {
    let p = StickyProfile::default();
    assert_eq!(p.timeout_ms, 1000);
    assert_eq!(p.flags, StickyFlags::new());
    assert!(!p.ignore.contains(HidKeyCode(43)));
}

#[test]
fn an_ignore_list_holds_what_fits() {
    let mut list = IgnoreList::new();
    for k in 0..STICKY_IGNORE_MAX {
        assert_eq!(list.push(HidKeyCode(k as u8 + 4)), Ok(()));
    }
    assert_eq!(list.push(HidKeyCode(99)), Err(()));
    assert!(list.contains(HidKeyCode(4)));
    assert!(!list.contains(HidKeyCode(99)));
}

fn profiles() -> StickyProfiles {
    let mut tab = StickyProfile::default();
    tab.ignore.push(HidKeyCode(43)).unwrap();
    let mut quick = StickyProfile::default();
    quick.timeout_ms = 0;
    quick.flags = StickyFlags::new()
        .with_activate_on_press(true)
        .with_release_on_next_press(true)
        .with_release_on_layer_enter(true);
    StickyProfiles {
        table: vec![tab, quick],
        fallback: StickyProfile::default(),
    }
}

#[test]
fn the_layer_profile_releases_on_the_next_press() {
    let p = profiles();
    let (_, flags) = p.sticky_profile(STICKY_PROFILE_LAYER);
    assert!(flags.release_on_next_press());
    assert!(!p.sticky_profile(200).1.release_on_next_press());
    assert_eq!(p.sticky_profile(1).0.timeout_ms, 0);
}

// --- Sticky keys, by record -------------------------------------------------

fn pos(row: u8, col: u8) -> KeyboardEventPos {
    KeyboardEventPos::Key { row, col }
}

fn snapshot(keys: &[u8]) -> OutputSnapshot {
    let mut keycodes = [HidKeyCode(0); 6];
    for (i, k) in keys.iter().enumerate() {
        keycodes[i] = HidKeyCode(*k);
    }
    OutputSnapshot { keycodes, media: 0, system: 0, mouse_buttons: 0 }
}

const SK_SHIFT: Action = Action::Modifier(SHIFT);
const SK_LAYER: Action = Action::LayerOn(1);

/// Press and release one sticky key, without the keyboard around it.
fn tap(table: &mut StickyTable, action: Action, profile: u8, layers: (u32, u32)) {
    let p = profiles();
    let step = table.process_key_action_sticky(action, profile, true, at(1000), Some(250), &p, at(1000));
    assert!(matches!(step, StickyStep::Dispatch { .. }));
    table.dispatched(action, pos(0, 0), profile, at(1000), CTRL, CTRL, layers.0, layers.1);
    let step = table.process_key_action_sticky(action, profile, false, at(2000), Some(250), &p, at(2000));
    assert!(matches!(step, StickyStep::Armed));
}

#[test]
fn the_added_keycode_is_the_first_new_one() {
    let before = snapshot(&[4, 5]);
    assert_eq!(snapshot(&[5, 4]).added_keycode(&before), None);
    assert_eq!(snapshot(&[4, 9, 8]).added_keycode(&before), Some(HidKeyCode(9)));
    assert!(before.same(&snapshot(&[4, 5])));
    assert!(!before.same(&snapshot(&[4])));
}

#[test]
fn only_keys_are_written_into_the_keyboard_report() {
    let before = snapshot(&[4, 5]);
    assert!(snapshot(&[4]).wrote_keyboard(&before));
    assert!(!before.wrote_keyboard(&snapshot(&[4, 5])));
    let clicked = OutputSnapshot { mouse_buttons: 1, ..snapshot(&[4, 5]) };
    assert!(!clicked.same(&before));
    assert!(!clicked.wrote_keyboard(&before));
}

#[test]
fn a_profile_without_a_hold_time_takes_the_default() {
    let p = profiles();
    for (up, holds) in [(249_999, false), (250_000, true)] {
        let mut table = StickyTable::new();
        table.process_key_action_sticky(SK_SHIFT, 200, true, at(0), None, &p, at(0));
        table.dispatched(SK_SHIFT, pos(0, 0), 200, at(0), CTRL, CTRL, 0, 0);
        let step = table.process_key_action_sticky(SK_SHIFT, 200, false, at(up), None, &p, at(up));
        assert_eq!(matches!(step, StickyStep::Release(_)), holds);
    }
}

#[test]
fn a_sticky_timeout_of_zero_means_never() {
    assert_eq!(sticky_deadline(0, at(5)), Instant::max());
    assert_eq!(sticky_deadline(1000, at(5)), at(1_000_005));
}

#[test]
fn a_tapped_sticky_key_waits_for_the_next_input() {
    let p = profiles();
    let mut table = StickyTable::new();
    tap(&mut table, SK_SHIFT, 200, (0, 0));
    assert_eq!(table.records()[0].phase, StickyPhase::Armed);
    assert_eq!(table.sticky_next_deadline(), Some(at(1_002_000)));

    // A modifier changes nothing that the host sees as content.
    assert!(table.claim_sticky(&snapshot(&[4]), &snapshot(&[4]), Action::No, &p, at(3000)).is_none());
    let out = table.claim_sticky(&snapshot(&[]), &snapshot(&[4]), Action::No, &p, at(3000)).unwrap();
    assert_eq!(out.len(), 1);
    assert_eq!(out[0].sticky.action, SK_SHIFT);
    assert_eq!(out[0].release_event(), KeyboardEvent { pos: pos(0, 0), pressed: false });
    assert!(!out[0].quick);
    assert!(table.records().is_empty());
}

#[test]
fn an_ignored_key_refills_the_timeout() {
    let p = profiles();
    let mut table = StickyTable::new();
    tap(&mut table, SK_SHIFT, 0, (0, 0));
    let out = table.claim_sticky(&snapshot(&[]), &snapshot(&[43]), Action::No, &p, at(9000)).unwrap();
    assert!(out.is_empty());
    assert_eq!(table.sticky_next_deadline(), Some(at(1_009_000)));
}

#[test]
fn a_held_sticky_key_is_used_and_released_with_its_key() {
    let p = profiles();
    let mut table = StickyTable::new();
    table.process_key_action_sticky(SK_SHIFT, 1, true, at(0), Some(250), &p, at(0));
    table.dispatched(SK_SHIFT, pos(1, 2), 1, at(0), CTRL, ModifierCombination(0b11), 0, 0);
    assert_eq!(table.records()[0].owned_mods, SHIFT);
    assert!(table.claim_sticky_unconditionally(&p, at(5)).is_empty());
    assert_eq!(table.records()[0].phase, StickyPhase::Used);
    match table.process_key_action_sticky(SK_SHIFT, 1, false, at(10), Some(250), &p, at(10)) {
        StickyStep::Release(r) => assert_eq!(r.sticky.pos, pos(1, 2)),
        other => panic!("{:?}", other),
    }
}

#[test]
fn holding_past_the_threshold_releases_right_away() {
    let p = profiles();
    let mut table = StickyTable::new();
    table.process_key_action_sticky(SK_SHIFT, 200, true, at(0), Some(250), &p, at(0));
    table.dispatched(SK_SHIFT, pos(0, 0), 200, at(0), CTRL, CTRL, 0, 0);
    let step = table.process_key_action_sticky(SK_SHIFT, 200, false, at(250_000), Some(250), &p, at(250_000));
    assert!(matches!(step, StickyStep::Release(_)));
}

#[test]
fn pressing_the_same_sticky_key_again_cancels_it() {
    let p = profiles();
    let mut table = StickyTable::new();
    tap(&mut table, SK_SHIFT, 200, (0, 0));
    let step = table.process_key_action_sticky(SK_SHIFT, 200, true, at(3000), Some(250), &p, at(3000));
    assert!(matches!(step, StickyStep::Release(_)));
    // Its release finds nothing left.
    let step = table.process_key_action_sticky(SK_SHIFT, 200, false, at(3000), Some(250), &p, at(3000));
    assert!(matches!(step, StickyStep::Ignored));
}

#[test]
fn a_full_sticky_table_drops_the_press() {
    let p = profiles();
    let mut table = StickyTable::new();
    for n in 0..STICKY_MAX {
        tap(&mut table, Action::User(n as u8), 200, (0, 0));
    }
    let step = table.process_key_action_sticky(SK_SHIFT, 200, true, at(0), Some(250), &p, at(0));
    assert!(matches!(step, StickyStep::Ignored));
    table.dispatched(SK_SHIFT, pos(0, 0), 200, at(0), CTRL, CTRL, 0, 0);
    assert_eq!(table.records().len(), STICKY_MAX);
}

#[test]
fn a_release_puts_out_its_own_layers_only() {
    let p = profiles();
    let mut table = StickyTable::new();
    tap(&mut table, SK_LAYER, 200, (0b001, 0b011));
    tap(&mut table, Action::LayerOn(2), 200, (0b011, 0b111));
    // Both time out together; the last one is taken out first.
    let out = table.fire_sticky_timeout(&p, at(2_000_000));
    assert_eq!(out.len(), 2);
    assert_eq!(out[0].sticky.action, Action::LayerOn(2));
    assert_eq!(out[0].still_lit, 0b010);
    // The dispatch put out everything but the base layer.
    assert_eq!(out[0].layers_to_restore(0b111, 0b001), vec![1]);
    assert_eq!(out[1].still_lit, 0);
    assert_eq!(out[1].layers_to_restore(0b011, 0b001), Vec::<u8>::new());
    assert!(table.sticky_next_deadline().is_none());
}

#[test]
fn a_layer_transition_ends_what_asks_for_it() {
    let p = profiles();
    let mut table = StickyTable::new();
    tap(&mut table, SK_SHIFT, 1, (0, 0));
    tap(&mut table, SK_LAYER, 200, (0, 0b10));
    assert!(table.sticky_on_layer_change(false, true, &p).is_empty());
    let out = table.sticky_on_layer_change(true, false, &p);
    assert_eq!(out.len(), 1);
    assert_eq!(out[0].sticky.action, SK_SHIFT);
    assert!(out[0].quick);
    assert_eq!(table.records()[0].action, SK_LAYER);
}

#[test]
fn one_catch_up_report_covers_a_batch() {
    let p = profiles();
    let mut table = StickyTable::new();
    tap(&mut table, SK_SHIFT, 1, (0, 0));
    tap(&mut table, SK_LAYER, 200, (0, 0b10));
    let out = table.claim_sticky_unconditionally(&p, at(0));
    assert_eq!(out.len(), 2);
    assert!(catch_up_report(&out, &vec![true, false], true, true));
    assert!(!catch_up_report(&out, &vec![false, true], true, true));
    assert!(catch_up_report(&out, &vec![false, true], true, false));
    assert!(!catch_up_report(&out, &vec![false, false], false, false));
}

// --- Sticky keys, by latch --------------------------------------------------

const TAB: KeyCode = KeyCode::Hid(HidKeyCode(43));
const KEY_A: Action = Action::Key(KeyCode::Hid(HidKeyCode(4)));

fn policy() -> StickyKeyPolicy {
    StickyKeyPolicy {
        timeout: ms(1000),
        keys: &[],
        keys_keep: false,
        max_repeat: 0,
        release_mode: StickyReleaseMode {
            before_other_key: false,
            other_key_press: false,
            other_key_release: true,
            layer_enter: false,
            layer_exit: false,
            double_tap: false,
        },
        release_after_hold: None,
        activate_on_keypress: false,
    }
}

fn tap_latch(keys: &mut StickyKeys, action: Action, p: StickyKeyPolicy, row: u8) {
    let out = keys.process_sticky_key(action, p, KeyboardEvent::key(row, 0, true), false, at(0), 1, at(0));
    assert_eq!(out.dispatch, Some(!p.activate_on_keypress));
    let out = keys.process_sticky_key(action, p, KeyboardEvent::key(row, 0, false), false, at(0), 0, at(10));
    assert!(out.ended.is_none() && out.dispatch.is_none());
}

#[test]
fn a_latch_serves_the_next_key_and_ends_with_it() {
    let mut keys = StickyKeys::default();
    tap_latch(&mut keys, SK_SHIFT, policy(), 0);
    assert_eq!(keys.deadline(), Some(at(1_000_010)));
    // A modifier never consumes it.
    assert!(keys.sticky_before(Action::Modifier(CTRL), true, at(20)).is_empty());
    assert!(keys.sticky_before(Action::Key(KeyCode::Hid(HidKeyCode(0xE1))), false, at(20)).is_empty());
    assert!(keys.sticky_before(KEY_A, true, at(20)).is_empty());
    assert_eq!(keys.deadline(), None);
    assert!(keys.sticky_after(true, 0, 0, at(20)).is_empty());
    keys.mark_reported();
    let ended = keys.sticky_before(KEY_A, false, at(30));
    assert_eq!(ended.len(), 1);
    assert!(any_visible(&ended));
    assert_eq!(ended[0].release_event(), KeyboardEvent::key(0, 0, false));
    assert!(keys.latches.iter().all(|l| l.is_none()));
}

#[test]
fn a_latch_that_is_never_used_expires() {
    let mut keys = StickyKeys::default();
    tap_latch(&mut keys, SK_SHIFT, policy(), 0);
    assert!(keys.sticky_expire(at(1_000_009)).is_empty());
    let ended = keys.sticky_expire(at(1_000_010));
    assert_eq!(ended.len(), 1);
    assert!(!any_visible(&ended));
    // A latch without a timeout does not.
    let mut p = policy();
    p.timeout = Duration::from_ticks(u64::MAX);
    tap_latch(&mut keys, SK_SHIFT, p, 0);
    assert_eq!(keys.deadline(), None);
    assert!(keys.sticky_expire(at(u64::MAX)).is_empty());
}

#[test]
fn a_chorded_or_long_held_sticky_key_is_an_ordinary_key() {
    // A key pressed after it is still down when it comes up.
    let mut keys = StickyKeys::default();
    keys.process_sticky_key(SK_SHIFT, policy(), KeyboardEvent::key(0, 0, true), false, at(0), 1, at(0));
    let out = keys.process_sticky_key(SK_SHIFT, policy(), KeyboardEvent::key(0, 0, false), false, at(0), 1, at(5));
    assert!(out.ended.is_some());
    // Held long.
    let mut p = policy();
    p.release_after_hold = Some(ms(200));
    keys.process_sticky_key(SK_SHIFT, p, KeyboardEvent::key(0, 0, true), false, at(0), 1, at(0));
    let out = keys.process_sticky_key(SK_SHIFT, p, KeyboardEvent::key(0, 0, false), false, at(0), 0, at(200_000));
    assert!(out.ended.is_some());
    // Used by a foreign key while down.
    keys.process_sticky_key(SK_SHIFT, p, KeyboardEvent::key(0, 0, true), false, at(0), 1, at(0));
    keys.sticky_before(KEY_A, true, at(1));
    keys.sticky_before(KEY_A, false, at(2));
    let out = keys.process_sticky_key(SK_SHIFT, p, KeyboardEvent::key(0, 0, false), false, at(0), 0, at(3));
    assert!(out.ended.is_some());
}

#[test]
fn a_clock_near_its_end_serves_what_counts_no_timeout() {
    let late = at(u64::MAX - 1);
    let mut keys = StickyKeys::default();
    tap_latch(&mut keys, SK_SHIFT, policy(), 0);
    assert!(keys.sticky_before(Action::Modifier(CTRL), true, late).is_empty());
    assert!(keys.sticky_after(true, 0, 0, late).is_empty());
    assert!(keys.sticky_before(KEY_A, true, late).is_empty());
    assert_eq!(keys.sticky_before(KEY_A, false, late).len(), 1);
}

#[test]
fn a_double_tap_ends_the_latch_for_good() {
    let mut p = policy();
    p.release_mode.double_tap = true;
    let mut keys = StickyKeys::default();
    tap_latch(&mut keys, SK_SHIFT, p, 0);
    let out = keys.process_sticky_key(SK_SHIFT, p, KeyboardEvent::key(0, 0, true), false, at(0), 1, at(20));
    assert!(out.ended.is_some());
    assert_eq!(out.dispatch, None);
    // Without it, the second press starts anew.
    tap_latch(&mut keys, SK_SHIFT, policy(), 0);
    let out = keys.process_sticky_key(SK_SHIFT, policy(), KeyboardEvent::key(0, 0, true), false, at(0), 1, at(20));
    assert!(out.ended.is_some());
    assert_eq!(out.dispatch, Some(true));
}

#[test]
fn a_combo_output_is_released_by_its_action() {
    let mut keys = StickyKeys::default();
    keys.process_sticky_key(SK_SHIFT, policy(), KeyboardEvent::key(0, 0, true), true, at(0), 2, at(0));
    // The other member comes up last; both are up by then.
    keys.process_sticky_key(SK_SHIFT, policy(), KeyboardEvent::key(0, 1, false), true, at(0), 0, at(5));
    assert!(matches!(keys.latches[0].unwrap().state, LatchState::Armed(Some(_))));
}

#[test]
fn latches_beyond_the_last_slot_are_ignored() {
    let mut keys = StickyKeys::default();
    for row in 0..MAX_ACTIVE {
        tap_latch(&mut keys, Action::User(row as u8), policy(), row as u8);
    }
    let out = keys.process_sticky_key(SK_SHIFT, policy(), KeyboardEvent::key(9, 0, true), false, at(0), 1, at(0));
    assert!(out.ended.is_none() && out.dispatch.is_none());
}

#[test]
fn kept_keys_use_the_effect_without_ending_it() {
    let mut p = policy();
    p.keys = &[TAB];
    p.keys_keep = true;
    p.max_repeat = 2;
    let tab = Action::Key(TAB);
    assert!(!ends_latch(p, tab));
    assert!(!ends_latch(p, Action::KeyWithModifier(HidKeyCode(43), SHIFT)));
    assert!(ends_latch(p, KEY_A));
    assert!(ends_latch(policy(), Action::No));

    let mut keys = StickyKeys::default();
    tap_latch(&mut keys, SK_SHIFT, p, 0);
    assert!(keys.sticky_before(tab, true, at(100)).is_empty());
    assert_eq!(keys.deadline(), Some(at(1_000_100)));
    assert!(keys.sticky_before(tab, false, at(101)).is_empty());
    assert!(keys.sticky_before(tab, true, at(102)).is_empty());
    // The second use was the last.
    assert_eq!(keys.sticky_before(tab, false, at(103)).len(), 1);
}

#[test]
fn a_latch_can_end_before_the_key_or_with_its_press() {
    let mut p = policy();
    p.release_mode.before_other_key = true;
    let mut keys = StickyKeys::default();
    tap_latch(&mut keys, SK_SHIFT, p, 0);
    assert_eq!(keys.sticky_before(KEY_A, true, at(20)).len(), 1);

    let mut p = policy();
    p.release_mode.other_key_press = true;
    tap_latch(&mut keys, SK_SHIFT, p, 0);
    assert!(keys.sticky_before(KEY_A, true, at(20)).is_empty());
    assert_eq!(keys.sticky_after(true, 0, 0, at(20)).len(), 1);
}

#[test]
fn a_latch_that_survives_its_consumer_is_armed_again() {
    let mut p = policy();
    p.release_mode.other_key_release = false;
    p.release_mode.layer_exit = true;
    let mut keys = StickyKeys::default();
    tap_latch(&mut keys, SK_SHIFT, p, 0);
    keys.sticky_before(KEY_A, true, at(20));
    keys.sticky_before(KEY_A, false, at(30));
    assert!(keys.sticky_after(false, 0b11, 0b11, at(30)).is_empty());
    assert_eq!(keys.deadline(), Some(at(1_000_030)));
    // Until a layer goes out.
    assert!(keys.sticky_after(true, 0b01, 0b11, at(40)).is_empty());
    assert_eq!(keys.sticky_after(true, 0b11, 0b01, at(40)).len(), 1);
}

#[test]
fn a_report_is_settled_only_when_it_is_stale() {
    let none = [HidKeyCode(0); 6];
    let mut held = none;
    held[2] = HidKeyCode(7);
    assert!(!settle_report(1, &none, 1, &none));
    assert!(settle_report(1, &none, 0, &none));
    assert!(settle_report(1, &held, 1, &none));
}

// --- Direct pins ------------------------------------------------------------

/// One pass over a matrix; `levels` are the pins' levels by place. A change of
/// level is settled at once, as with a fast debouncer.
fn pass<const R: usize, const C: usize>(
    matrix: &mut DirectPinMatrix<R, C>,
    levels: &[[bool; C]; R],
    now: Instant,
) -> (Option<KeyboardEvent>, Duration) {
    matrix.begin_pass();
    while let Some((row, col)) = matrix.next_pin() {
        let high = levels[row][col];
        let down = matrix.pin_state(Some(!high), Some(high));
        let state = if down != matrix.pressed[row][col] {
            DebounceState::Debounced
        } else {
            DebounceState::Ignored
        };
        if let Some(event) = matrix.pin_read(row, col, state, now) {
            return (Some(event), Duration::from_ticks(0));
        }
    }
    let pause = matrix.end_pass(false);
    (None, pause)
}

#[test]
fn idle_pass_sleeps_then_catches_the_next_press() {
    let mut matrix = DirectPinMatrix::<1, 1>::new([[true]], false, 0, 0);
    let mut elapsed = 0;
    let mut event = None;
    for high in [false, false, true] {
        let (e, pause) = pass(&mut matrix, &[[high]], at(elapsed));
        elapsed += pause.ticks;
        event = e;
    }
    assert!(event.unwrap().pressed);
    let idle_period = Duration::from_millis(MATRIX_IDLE_SCAN_MS).ticks;
    assert!(elapsed >= idle_period * 2 - 100);
    assert!(elapsed < idle_period * 3);
}

#[test]
fn held_key_keeps_active_scan_rate_for_the_whole_pass() {
    let mut matrix = DirectPinMatrix::<1, 2>::new([[true, true]], false, 0, 0);
    let (a_press, _) = pass(&mut matrix, &[[true, false]], at(0));
    assert!(a_press.unwrap().pressed);

    let mut elapsed = 0;
    let mut b_press = None;
    for b in [false, false, false, false, false, true] {
        let (e, pause) = pass(&mut matrix, &[[true, b]], at(elapsed));
        elapsed += pause.ticks;
        b_press = e;
    }
    assert!(b_press.unwrap().pressed);
    assert!(elapsed < Duration::from_millis(MATRIX_IDLE_SCAN_MS).ticks / 2);
}

#[test]
fn events_carry_their_place_in_the_keymap() {
    let mut matrix = DirectPinMatrix::<2, 2>::new([[true, false], [false, true]], true, 3, 10);
    // Active low: the second row's pin is pulled down.
    let (event, _) = pass(&mut matrix, &[[true, true], [true, false]], at(0));
    assert_eq!(event, Some(KeyboardEvent::key(4, 11, true)));
    let (event, _) = pass(&mut matrix, &[[true, true], [true, true]], at(0));
    assert_eq!(event, Some(KeyboardEvent::key(4, 11, false)));
    // The next pass goes on from there, and a quiet one starts over.
    assert_eq!(matrix.scan_pos, (1, 1));
    assert_eq!(pass(&mut matrix, &[[true, true], [true, true]], at(0)).0, None);
    assert_eq!(matrix.scan_pos, (0, 0));
    // A pin that cannot be read is not pressed.
    assert!(!matrix.pin_state(None, None));
}

#[test]
fn scanning_goes_on_while_a_key_is_down() {
    let mut matrix = DirectPinMatrix::<1, 1>::new([[true]], false, 0, 0);
    assert!(matrix.wait_for_key(at(0)));
    matrix.key_arrived(at(1000));
    assert!(!matrix.wait_for_key(at(2999)));
    assert!(matrix.wait_for_key(at(3000)));
    assert_eq!(matrix.scan_start, None);
    pass(&mut matrix, &[[true]], at(5000));
    pass(&mut matrix, &[[true]], at(6000));
    assert_eq!(matrix.scan_start, Some(at(6000)));
    assert_eq!(matrix.end_pass(true).ticks, 100);
    matrix.begin_pass();
    matrix.pin_read(0, 0, DebounceState::InProgress, at(0));
    assert!(matrix.any_active);
}

// --- The DFU LED ------------------------------------------------------------

#[test]
fn the_led_shows_the_download() {
    let mut led = DfuLedProcessor::new();
    for (status, action) in [
        (DfuStatus::Started, Some(LedAction::Activate)),
        (DfuStatus::Downloading, Some(LedAction::Toggle)),
        (DfuStatus::Finished, Some(LedAction::Deactivate)),
        (DfuStatus::LockWaiting, Some(LedAction::Activate)),
        (DfuStatus::LockUnlocked, None),
        (DfuStatus::Idle, Some(LedAction::Deactivate)),
    ] {
        assert_eq!(led.on_dfu_status_event(DfuStatusEvent::new(status)), action);
    }
    assert!(led.poll().is_empty());
    led.on_dfu_status_event(DfuStatusEvent::new(DfuStatus::LockUnlocked));
    for _ in 0..100 {
        assert_eq!(led.poll(), vec![LedAction::Toggle]);
    }
}

#[test]
fn an_error_blinks_for_five_seconds() {
    let mut led = DfuLedProcessor::new();
    assert_eq!(led.on_dfu_status_event(DfuStatusEvent::new(DfuStatus::Error)), None);
    for _ in 1..ERROR_BLINK_CYCLES {
        assert_eq!(led.poll(), vec![LedAction::Toggle]);
    }
    assert_eq!(led.poll(), vec![LedAction::Toggle, LedAction::Deactivate]);
    assert!(led.poll().is_empty());
}

#[test]
fn a_dongle_starts_out_searching() {
    assert_eq!(DongleState::default(), DongleState::Searching);
}
