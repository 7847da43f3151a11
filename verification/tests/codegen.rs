//! Keymap actions, morse profiles and the analog device, from their configuration.

use rmk::codegen::action::{
    as_hid_keycode, get_key_with_alias, parse_action, parse_key, parse_layer, parse_modifiers,
    split_top_level, strip_call, ActionExpr, KeyActionExpr, ModifierCombinationMacro,
};
use rmk::codegen::adc::{
    expand_adc_device, AdcExpr, BleConfig, ChannelExpr, JoystickConfig, ProcessorExpr,
};
use rmk::codegen::names::{closest_name, hint_for, resolve_alias, Vocabulary};
use rmk::codegen::profile::{
    expand_profile, expand_profile_name, expand_timeout, morse_profile, sorted_profile_names, MorseMode,
};
use rmk::config::behavior::MorseProfile;
use rmk::config::toml::ChipSeries;
use rmk::input_device::adc::AnalogEventType;

fn texts(names: &[&str]) -> Vec<String> {
    names.iter().map(|n| n.to_string()).collect()
}

fn vocabulary() -> Vocabulary {
    Vocabulary {
        keyboard_actions: texts(&["Bootloader", "Reboot", "OutputUsb"]),
        light_actions: texts(&["BacklightOn", "RgbTog"]),
        special_keys: texts(&["GraveEscape", "Repeat"]),
        hid_keycodes: texts(&[
            "A", "B", "C", "P", "Q", "Kc1", "Space", "Enter", "Backspace", "Tab", "Escape", "LCtrl",
            "LShift", "LAlt", "LGui", "RCtrl", "RShift", "RAlt", "RGui",
        ]),
        aliases: [("lcmd", "LGui"), ("algr", "RAlt"), ("ent", "Enter"), ("1", "Kc1")]
            .iter()
            .map(|(a, k)| (a.to_string(), k.to_string()))
            .collect(),
    }
}

fn expand(key: &str) -> Result<KeyActionExpr, String> {
    parse_key(key, &None, &vocabulary())
}

fn message(key: &str) -> String {
    expand(key).unwrap_err()
}

fn action(key: &str) -> Result<ActionExpr, String> {
    parse_action(key, &vocabulary())
}

fn modifiers(list: &str) -> Result<ModifierCombinationMacro, String> {
    parse_modifiers(list, &vocabulary())
}

fn profile(enable_flow_tap: Option<bool>) -> MorseProfile {
    MorseProfile {
        enable_flow_tap,
        unilateral_tap: Some(true),
        permissive_hold: None,
        hold_on_other_press: None,
        normal_mode: Some(true),
        hold_timeout_ms: Some(250),
        gap_timeout_ms: Some(250),
        quick_tap_timeout_ms: None,
    }
}

// --- Profiles ---------------------------------------------------------------

#[test]
fn expand_profile_emits_flow_tap_override() {
    let disabled = expand_profile(&profile(Some(false))).unwrap();
    assert_eq!(disabled.enable_flow_tap, Some(false));

    let enabled = expand_profile(&profile(Some(true))).unwrap();
    assert_eq!(enabled.enable_flow_tap, Some(true));

    let inherit = expand_profile(&profile(None)).unwrap();
    assert_eq!(inherit.enable_flow_tap, None);
}

#[test]
fn expand_profile_emits_quick_tap_timeout() {
    let explicit = expand_profile(&MorseProfile {
        quick_tap_timeout_ms: Some(200),
        ..profile(None)
    })
    .unwrap();
    assert_eq!(explicit.quick_tap_timeout_ms, Some(200u16));

    let inherit = expand_profile(&profile(None)).unwrap();
    assert_eq!(inherit.quick_tap_timeout_ms, None);
}

#[test]
fn expand_profile_accepts_max_timeouts() {
    let out = expand_profile(&MorseProfile {
        hold_timeout_ms: Some(8191),
        gap_timeout_ms: Some(8191),
        quick_tap_timeout_ms: Some(8191),
        ..profile(None)
    })
    .unwrap();
    assert_eq!(out.hold_timeout_ms, Some(8191u16));
    assert_eq!(out.gap_timeout_ms, Some(8191u16));
    assert_eq!(out.quick_tap_timeout_ms, Some(8191u16));
}

#[test]
fn expand_profile_rejects_hold_timeout_over_max() {
    let err = expand_profile(&MorseProfile { hold_timeout_ms: Some(8192), ..profile(None) }).unwrap_err();
    assert!(err.contains("behavior.morse.hold_timeout = 8192ms exceeds the maximum of 8191ms"));
}

#[test]
fn expand_profile_rejects_gap_timeout_over_max() {
    let err = expand_profile(&MorseProfile { gap_timeout_ms: Some(8192), ..profile(None) }).unwrap_err();
    assert!(err.contains("behavior.morse.gap_timeout = 8192ms exceeds the maximum of 8191ms"));
}

#[test]
fn expand_profile_rejects_quick_tap_timeout_over_max() {
    let err = expand_profile(&MorseProfile { quick_tap_timeout_ms: Some(8192), ..profile(None) }).unwrap_err();
    assert!(err.contains("behavior.morse.quick_tap_timeout = 8192ms exceeds the maximum of 8191ms"));
    assert!(err.starts_with("\n\u{274c} keyboard.toml: "));
    assert!(err.ends_with("(13-bit field)."));
}

#[test]
fn the_first_mode_that_is_on_counts() {
    let mode = |p: MorseProfile| expand_profile(&p).unwrap().mode;
    assert_eq!(mode(profile(None)), Some(MorseMode::Normal));
    assert_eq!(
        mode(MorseProfile { hold_on_other_press: Some(true), ..profile(None) }),
        Some(MorseMode::HoldOnOtherPress)
    );
    assert_eq!(
        mode(MorseProfile {
            permissive_hold: Some(true),
            hold_on_other_press: Some(true),
            ..profile(None)
        }),
        Some(MorseMode::PermissiveHold)
    );
    assert_eq!(mode(MorseProfile { normal_mode: Some(false), ..profile(None) }), None);
}

#[test]
fn profiles_are_indexed_by_their_sorted_names() {
    let profiles = Some(vec![
        ("zeta".to_string(), profile(None)),
        ("Alpha".to_string(), profile(Some(true))),
        ("alpha".to_string(), profile(Some(false))),
    ]);
    assert_eq!(sorted_profile_names(&profiles), texts(&["Alpha", "alpha", "zeta"]));
    assert_eq!(morse_profile(Some(&"zeta".to_string()), &profiles), Ok(2));
    assert_eq!(morse_profile(None, &profiles), Ok(255));
    assert!(sorted_profile_names(&None).is_empty());
    assert_eq!(expand_profile_name("alpha", &profiles).unwrap().enable_flow_tap, Some(false));
    assert!(expand_profile_name("beta", &profiles).is_err());
}

#[test]
fn a_profile_is_found_by_its_name() {
    let profiles = Some(vec![
        ("zeta".to_string(), profile(Some(true))),
        ("alpha".to_string(), profile(Some(false))),
    ]);
    let names = sorted_profile_names(&profiles);
    for (index, name) in names.iter().enumerate() {
        assert_eq!(morse_profile(Some(name), &profiles), Ok(index as u8));
    }
    assert_eq!(expand_profile_name("zeta", &profiles).unwrap().enable_flow_tap, Some(true));
    assert_eq!(expand_profile_name("alpha", &profiles).unwrap().enable_flow_tap, Some(false));
}

#[test]
fn a_timeout_must_fit_its_field() {
    assert_eq!(expand_timeout("hold_timeout", Some(8191), 13), Ok(Some(8191)));
    assert!(expand_timeout("hold_timeout", Some(8192), 13).is_err());
    assert_eq!(expand_timeout("quick_tap_timeout", Some(15), 4), Ok(Some(15)));
    assert!(expand_timeout("quick_tap_timeout", Some(16), 4).unwrap_err().contains("15"));
    assert_eq!(expand_timeout("gap_timeout", Some(65535), 16), Ok(Some(65535)));
    assert!(expand_timeout("gap_timeout", Some(65536), 16).is_err());
    assert_eq!(expand_timeout("gap_timeout", None, 13), Ok(None));
}

#[test]
fn morse_profile_suggests_closest_defined_profile() {
    let profiles = Some(vec![("home_row".to_string(), profile(None))]);
    let err = parse_key("TH(Space, Enter, home_roww)", &profiles, &vocabulary()).unwrap_err();
    assert!(err.contains(
        "`\"home_roww\"` profile name is not found in behavior.morse.profiles (did you mean home_row?)"
    ));
}

// --- Actions ----------------------------------------------------------------

#[test]
fn plain_and_call_forms_wrap_in_single() {
    // Plain keycode.
    assert!(matches!(expand("A"), Ok(KeyActionExpr::Single(ActionExpr::Key(k))) if k == "A"));
    // Call-form single actions route through the shared parser, still wrapped in Single.
    assert!(matches!(expand("MO(1)"), Ok(KeyActionExpr::Single(ActionExpr::LayerOn(1u8)))));
    assert!(matches!(
        expand("WM(C,LCtrl)"),
        Ok(KeyActionExpr::Single(ActionExpr::KeyWithModifier(k, m))) if k == "C" && m.ctrl
    ));
    assert!(matches!(
        expand("MOD(LCtrl | LAlt | LGui)"),
        Ok(KeyActionExpr::Single(ActionExpr::Modifier(m))) if m.ctrl && m.alt && m.gui && !m.shift
    ));
    assert!(matches!(
        expand("OSM(LShift)"),
        Ok(KeyActionExpr::Single(ActionExpr::OneShotModifier(m))) if m.shift
    ));
}

#[test]
fn mt_accepts_nested_with_modifier_tap() {
    match expand("MT(WM(P, RAlt), LShift)") {
        // Tap slot is a KeyWithModifier, hold slot is a Modifier combination.
        Ok(KeyActionExpr::TapHold(
            ActionExpr::KeyWithModifier(key, tap),
            ActionExpr::Modifier(hold),
            255,
        )) => {
            // The nested key resolves to P with the right-Alt modifier.
            assert_eq!(key, "P");
            assert!(tap.alt && tap.right);
            assert!(hold.shift && !hold.right);
        }
        other => panic!("{:?}", other),
    }
}

#[test]
fn th_accepts_nested_actions_in_both_slots() {
    assert!(matches!(
        expand("TH(WM(A, LShift), MO(2))"),
        Ok(KeyActionExpr::TapHold(
            ActionExpr::KeyWithModifier(_, _),
            ActionExpr::LayerOn(2u8),
            255,
        ))
    ));
}

#[test]
fn lt_tap_slot_accepts_nested_action() {
    assert!(matches!(
        expand("LT(1, WM(Q, LGui))"),
        Ok(KeyActionExpr::TapHold(
            ActionExpr::KeyWithModifier(_, _),
            ActionExpr::LayerOn(1u8),
            255,
        ))
    ));
}

#[test]
fn plain_mt_th_lt_still_expand() {
    assert!(matches!(
        expand("MT(A, LShift)"),
        Ok(KeyActionExpr::TapHold(ActionExpr::Key(_), _, 255))
    ));
    assert!(matches!(
        expand("TH(Space, Backspace)"),
        Ok(KeyActionExpr::TapHold(ActionExpr::Key(_), ActionExpr::Key(_), 255))
    ));
    assert!(matches!(
        expand("LT(2, Enter)"),
        Ok(KeyActionExpr::TapHold(_, ActionExpr::LayerOn(2u8), 255))
    ));
}

#[test]
fn tap_hold_keys_take_a_profile() {
    let profiles = Some(vec![
        ("b".to_string(), profile(None)),
        ("a".to_string(), profile(None)),
    ]);
    assert!(matches!(
        parse_key("MT(A, LShift, b)", &profiles, &vocabulary()),
        Ok(KeyActionExpr::TapHold(_, _, 1))
    ));
    assert!(message("MT(A)").contains("MT(key, modifier) invalid"));
    assert!(message("TH(A, B, a, b)").contains("TH(key_tap, key_hold) invalid"));
    assert!(message("LT(1)").contains("LT(layer, key) invalid"));
}

#[test]
fn keys_that_are_no_single_actions() {
    assert!(matches!(expand("____"), Ok(KeyActionExpr::Transparent)));
    assert!(matches!(expand("No"), Ok(KeyActionExpr::No)));
    assert!(matches!(expand("TT(3)"), Ok(KeyActionExpr::TapToggle(3))));
    assert!(matches!(expand("TD(4)"), Ok(KeyActionExpr::Morse(4))));
}

#[test]
fn every_action_form_is_known() {
    assert!(matches!(action("no"), Ok(ActionExpr::No)));
    assert!(matches!(action("LM(2, RShift)"), Ok(ActionExpr::LayerOnWithModifier(2, m)) if m.shift && m.right));
    assert!(matches!(action("OSL(3)"), Ok(ActionExpr::OneShotLayer(3))));
    assert!(matches!(action("TG(4)"), Ok(ActionExpr::LayerToggle(4))));
    assert!(matches!(action("TO(5)"), Ok(ActionExpr::LayerToggleOnly(5))));
    assert!(matches!(action("PDF(1)"), Ok(ActionExpr::PersistentDefaultLayer(1))));
    assert!(matches!(action("DF(6)"), Ok(ActionExpr::DefaultLayer(6))));
    assert!(matches!(action("Macro(7)"), Ok(ActionExpr::TriggerMacro(7))));
    assert!(matches!(action("Macro8"), Ok(ActionExpr::TriggerMacro(8))));
    assert!(matches!(action("SHIFTED(A)"), Ok(ActionExpr::KeyWithModifier(k, m)) if k == "A" && m.shift));
    assert!(matches!(action("User(9)"), Ok(ActionExpr::User(9))));
    assert!(matches!(action("User31"), Ok(ActionExpr::User(31))));
    assert!(matches!(action("rgbtog"), Ok(ActionExpr::Light(n)) if n == "RgbTog"));
    assert!(matches!(action("graveescape"), Ok(ActionExpr::Special(n)) if n == "GraveEscape"));
    assert!(matches!(action("BOOTLOADER"), Ok(ActionExpr::KeyboardControl(n)) if n == "Bootloader"));
    assert!(action("User32").unwrap_err().contains("User keys are numbered 0-31."));
}

#[test]
fn parse_modifiers_resolves_canonical_and_alias_names() {
    let m = modifiers("LCtrl | lcmd | algr").unwrap();
    assert!(m.ctrl);
    assert!(m.gui);
    assert!(m.alt);
    assert!(m.right);
    assert!(!m.shift);
}

#[test]
fn unknown_keycode_suggests_closest_key() {
    assert!(message("Spacee").contains("unknown key 'Spacee' (did you mean Space?)"));
}

#[test]
fn unknown_action_suggests_closest_action() {
    assert!(message("Bootloade").contains("unknown key 'Bootloade' (did you mean Bootloader?)"));
}

#[test]
fn composite_action_tap_slot_validates_its_key() {
    assert!(message("WM(Spacee, RAlt)").contains("unknown key 'Spacee'"));
}

#[test]
fn far_off_key_gets_no_hint() {
    let msg = message("ZqZqZq99");
    assert!(msg.contains("unknown key 'ZqZqZq99'"), "{}", msg);
    // Nothing within the cutoff, so no fabricated suggestion.
    assert!(!msg.contains("did you mean"), "{}", msg);
}

#[test]
fn alias_resolution_survives_validated_lookup() {
    assert!(matches!(expand("lcmd"), Ok(KeyActionExpr::Single(ActionExpr::Key(k))) if k == "LGui"));
    assert_eq!(resolve_alias(&vocabulary().aliases, "LCMD"), "LGui");
    assert_eq!(as_hid_keycode("Ent", &vocabulary()), Some("Enter".to_string()));
    assert_eq!(as_hid_keycode("PDF(1)", &vocabulary()), None);
    assert!(get_key_with_alias("Tabb", &vocabulary()).is_err());
}

#[test]
fn invalid_layer_index_is_reported_in_context() {
    assert!(message("MO(two)").contains("layer index must be a number, got 'two'"));
    assert_eq!(parse_layer("MO( 12 )"), Ok(12));
    assert!(parse_layer("MO(256)").is_err());
}

#[test]
fn invalid_morse_index_is_reported_in_context() {
    assert!(message("TD(x)").contains("morse index must be a number, got 'x'"));
}

#[test]
fn invalid_macro_number_form_is_reported_in_context() {
    assert!(message("Macro9x").contains("macro index must be a number, got '9x'"));
}

#[test]
fn parse_modifiers_rejects_unknown_name_in_list() {
    let err = modifiers("LShift | LCtrol").unwrap_err();
    assert!(err.contains("unknown modifier(s) [LCtrol (did you mean LCtrl?)]"), "{}", err);
}

#[test]
fn parse_modifiers_rejects_trailing_separator() {
    assert!(modifiers("LShift |").unwrap_err().contains("empty segment"));
}

#[test]
fn parse_modifiers_rejects_doubled_separator() {
    assert!(modifiers("LShift || LCtrl").unwrap_err().contains("empty segment"));
}

#[test]
fn joined_lists_give_the_modifiers_of_both() {
    let (a, b) = (modifiers("LCtrl").unwrap(), modifiers("RShift | LGui").unwrap());
    let both = modifiers("LCtrl | RShift | LGui").unwrap();
    assert_eq!(both.ctrl, a.ctrl || b.ctrl);
    assert_eq!(both.shift, a.shift || b.shift);
    assert_eq!(both.alt, a.alt || b.alt);
    assert_eq!(both.gui, a.gui || b.gui);
    assert_eq!(both.right, a.right || b.right);
    assert!(both.ctrl && both.shift && both.gui && both.right && !both.alt);
}

#[test]
fn pieces_come_in_the_order_of_the_text() {
    let text = " MT(A, LCtrl) ,WM(B, (LShift)),  C ";
    let pieces = split_top_level(text);
    assert_eq!(pieces, texts(&["MT(A, LCtrl)", "WM(B, (LShift))", "C"]));
    let mut from = 0;
    for piece in &pieces {
        let at = text[from..].find(piece.as_str()).unwrap();
        from += at + piece.len();
        assert_eq!(split_top_level(piece), vec![piece.clone()]);
    }
}

#[test]
fn calls_are_taken_apart_at_the_top_level() {
    assert_eq!(split_top_level("WM(A, LShift), MO(2)"), texts(&["WM(A, LShift)", "MO(2)"]));
    assert_eq!(strip_call("WM(P, RAlt)"), Ok("P, RAlt"));
    assert!(strip_call("WM(P, RAlt").unwrap_err().contains("is missing a closing ')'"));
    assert!(strip_call("WM").is_err());
}

#[test]
fn the_closest_name_is_suggested() {
    let names = texts(&["Space", "Tab", "Escape"]);
    assert_eq!(closest_name("Escpe", &names), Some("Escape"));
    assert_eq!(closest_name("completely else", &names), None);
    assert_eq!(hint_for("Tabb", &names), " (did you mean Tab?)");
    assert_eq!(hint_for("completely else", &names), "");
}

// --- Analog device ----------------------------------------------------------

fn joystick() -> JoystickConfig {
    JoystickConfig::new(
        "test".to_string(),
        "P0_31".to_string(),
        "P0_29".to_string(),
        "_".to_string(),
        vec![vec![80, 0], vec![0, 80]],
        vec![29130, 29365],
        6,
    )
}

fn battery(pin: &str) -> Option<BleConfig> {
    Some(BleConfig {
        enabled: true,
        battery_adc_pin: Some(pin.to_string()),
        adc_divider_measured: Some(2000),
        adc_divider_total: Some(2806),
    })
}

fn refused(joysticks: Vec<JoystickConfig>) -> String {
    expand_adc_device(&joysticks, &None, ChipSeries::Nrf52).unwrap_err()
}

#[test]
fn defaults_and_old_config_remain_valid() {
    let c = joystick();
    assert_eq!(c.polling_rate_hz, 50);
    assert_eq!(c.idle_polling_rate_hz, 10);
    assert_eq!(c.sample_settle_us, 20);
    assert_eq!(c.boot_settle_ms, 2);
    assert_eq!(c.deadzone, 0);
    assert!(c.power_pin.is_none());
    assert!(c.validate_power_config().is_ok());
}

#[test]
fn invalid_ranges_fail_validation() {
    for config in [
        JoystickConfig { polling_rate_hz: 0, ..joystick() },
        JoystickConfig { idle_polling_rate_hz: 0, ..joystick() },
        JoystickConfig { idle_polling_rate_hz: 51, ..joystick() },
        JoystickConfig { deadzone: 32768, ..joystick() },
    ] {
        assert!(config.validate_power_config().is_err());
        assert!(expand_adc_device(&vec![config], &None, ChipSeries::Nrf52).is_err());
    }
}

#[test]
fn battery_and_joysticks_share_the_converter() {
    let second = JoystickConfig {
        id: Some(7),
        pin_z: "P0_02".to_string(),
        bias: vec![1, 2, 3],
        transform: vec![vec![1; 3]; 3],
        power_pin: Some("P0_05".to_string()),
        deadzone: 40,
        ..joystick()
    };
    let AdcExpr { device, processors } =
        expand_adc_device(&vec![joystick(), second], &battery("P0_04"), ChipSeries::Nrf52).unwrap();
    let device = device.unwrap();
    let pins: Vec<String> = device
        .channels
        .iter()
        .map(|c| match c {
            ChannelExpr::Pin(p) => p.clone(),
            ChannelExpr::VddhDiv5 => "vddh".to_string(),
        })
        .collect();
    assert_eq!(pins, texts(&["P0_04", "P0_31", "P0_29", "P0_31", "P0_29", "P0_02"]));
    let events: Vec<AnalogEventType> = device.slots.iter().map(|s| s.event).collect();
    assert_eq!(
        events,
        vec![AnalogEventType::Battery, AnalogEventType::Joystick(2), AnalogEventType::Joystick(3)]
    );
    let ids: Vec<u8> = device.slots.iter().map(|s| s.device_id).collect();
    assert_eq!(ids, vec![0, 0, 7]);
    assert_eq!(device.slots[2].bias, [1, 2, 3]);
    assert_eq!(device.slots[1].bias, [29130, 29365, 0]);
    assert_eq!((device.polling_interval_ms, device.light_sleep_ms), (20, Some(350)));
    assert_eq!(device.power.unwrap().polling_rate_hz, 50);
    assert!(matches!(
        processors[0],
        ProcessorExpr::Battery { divider_measured: 2000, divider_total: 2806 }
    ));
    assert!(matches!(&processors[2], ProcessorExpr::Joystick { device_id: 7, deadzone: 40, .. }));
}

#[test]
fn a_battery_alone_is_read_rarely() {
    let out = expand_adc_device(&vec![], &battery("vddh"), ChipSeries::Nrf52).unwrap();
    let device = out.device.unwrap();
    assert!(matches!(device.channels[0], ChannelExpr::VddhDiv5));
    assert_eq!((device.polling_interval_ms, device.light_sleep_ms), (30000, None));
    assert!(device.power.is_none());
    assert!(matches!(
        out.processors[0],
        ProcessorExpr::Battery { divider_measured: 1, divider_total: 5 }
    ));
    assert!(expand_adc_device(&vec![], &None, ChipSeries::Nrf52).unwrap().device.is_none());
    let other = expand_adc_device(&vec![joystick()], &battery("vddh"), ChipSeries::Rp2040).unwrap();
    assert!(other.device.is_none() && other.processors.is_empty());
}

#[test]
fn joysticks_that_do_not_fit_are_refused() {
    assert!(refused(vec![joystick(), JoystickConfig { boot_settle_ms: 3, ..joystick() }])
        .contains("same polling/settling parameters"));
    assert!(refused(vec![JoystickConfig { pin_y: "_".to_string(), ..joystick() }])
        .contains("must have X/Y"));
    assert!(refused(vec![JoystickConfig { bias: vec![1], ..joystick() }])
        .contains("dimensions must match"));
    assert!(refused(vec![JoystickConfig { transform: vec![vec![1, 2], vec![3]], ..joystick() }])
        .contains("dimensions must match"));
}
