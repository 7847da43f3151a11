//! What the sections of a keyboard's configuration resolve to.

use rmk::config::behavior::{resolve_macro_operation, split_key_groups, Behavior, MacroOperation};
use rmk::config::hardware::{resolve_storage, Storage};
use rmk::config::toml::{
    AutoMouseLayerConfig, AutoShiftConfig, BehaviorConfig, ChipModel, ChipSeries, ComboConfig,
    CombosConfig, DfuTomlConfig, DurationMillis, ExternalFlashDriver, ExternalFlashTomlConfig,
    ForkConfig, ForksConfig, KeyboardTomlConfig, LayoutConfig, MacroConfig, MacroOperationConfig,
    MacrosConfig, MorseActionPairConfig, MorseConfig, MorseKeyConfig, MorseProfileConfig,
    OneShotConfig, OneShotModifiersConfig, Section, SpiConfig, SplitBoardConfig, SplitConfig,
    StorageConfig, TriLayerConfig,
};

fn text(s: &str) -> String {
    s.to_string()
}

fn section(s: &str) -> Section {
    Section { text: text(s) }
}

fn no_behavior() -> BehaviorConfig {
    BehaviorConfig {
        tri_layer: None,
        one_shot: None,
        one_shot_modifiers: None,
        combo: None,
        macros: None,
        fork: None,
        morse: None,
        auto_mouse_layer: None,
        auto_shift: None,
    }
}

fn keyboard() -> KeyboardTomlConfig {
    KeyboardTomlConfig {
        morse_profile_max_num: 8,
        behavior: Ok(no_behavior()),
        layout: Some(LayoutConfig { rows: 2, cols: 2 }),
        storage: storage(),
        storage_user_set: false,
        dfu: None,
        split: None,
        chip: Ok(ChipModel { series: ChipSeries::Rp2040, chip: text("rp2040") }),
        chip_config: section("chip"),
        communication: Ok(section("usb")),
        board: Ok(section("board")),
        light: section("light"),
        display: None,
        output: Ok(vec![section("out")]),
        dependency: section("dep"),
    }
}

fn storage() -> StorageConfig {
    StorageConfig {
        enabled: true,
        start_addr: None,
        num_sectors: None,
        clear_storage: None,
        clear_layout: None,
    }
}

fn profile_config() -> MorseProfileConfig {
    MorseProfileConfig {
        enable_flow_tap: None,
        unilateral_tap: None,
        permissive_hold: None,
        hold_on_other_press: None,
        normal_mode: None,
        hold_timeout: None,
        gap_timeout: None,
        quick_tap_timeout: None,
    }
}

fn held(ms: u64) -> MorseProfileConfig {
    MorseProfileConfig { hold_timeout: Some(DurationMillis(ms)), ..profile_config() }
}

fn morse(profiles: Vec<(&str, MorseProfileConfig)>) -> MorseConfig {
    MorseConfig {
        enable_flow_tap: None,
        prior_idle_time: None,
        unilateral_tap: None,
        permissive_hold: None,
        hold_on_other_press: None,
        normal_mode: None,
        hold_timeout: None,
        gap_timeout: None,
        quick_tap_timeout: None,
        profiles: Some(profiles.into_iter().map(|(n, p)| (text(n), p)).collect()),
        morses: None,
    }
}

fn behavior_of(behavior: BehaviorConfig) -> Result<Behavior, String> {
    KeyboardTomlConfig { behavior: Ok(behavior), ..keyboard() }.behavior()
}

fn auto_shift(keys: Option<Vec<&str>>, profile: Option<&str>) -> BehaviorConfig {
    BehaviorConfig {
        morse: Some(morse(vec![("as", held(175))])),
        auto_shift: Some(AutoShiftConfig {
            keys: keys.map(|k| k.into_iter().map(text).collect()),
            profile: profile.map(text),
        }),
        ..no_behavior()
    }
}

// --- Behavior ---------------------------------------------------------------

#[test]
fn morse_profile_enable_flow_tap_resolves_as_override() {
    let flow = |on| MorseProfileConfig { enable_flow_tap: Some(on), ..profile_config() };
    let config = MorseConfig {
        enable_flow_tap: Some(true),
        ..morse(vec![("flow_on", flow(true)), ("flow_off", flow(false)), ("inherit", held(200))])
    };
    let morse = behavior_of(BehaviorConfig { morse: Some(config), ..no_behavior() })
        .unwrap()
        .morse
        .unwrap();
    let profile = |name: &str| morse.profiles.iter().find(|p| p.0 == name).unwrap().1;
    assert!(morse.enable_flow_tap);
    assert_eq!(morse.default_profile.enable_flow_tap, Some(true));
    assert_eq!(profile("flow_on").enable_flow_tap, Some(true));
    assert_eq!(profile("flow_off").enable_flow_tap, Some(false));
    assert_eq!(profile("inherit").enable_flow_tap, None);
    assert_eq!(profile("inherit").hold_timeout_ms, Some(200));
}

#[test]
fn morse_profiles_overflowing_morse_profile_max_num_is_an_error() {
    let config = KeyboardTomlConfig {
        morse_profile_max_num: 1,
        behavior: Ok(BehaviorConfig {
            morse: Some(morse(vec![("p1", held(200)), ("p2", held(300))])),
            ..no_behavior()
        }),
        ..keyboard()
    };
    let err = config.behavior().unwrap_err();
    assert!(err.contains("morse_profile_max_num"), "unexpected error: {}", err);
}

#[test]
fn auto_shift_defaults_to_all_groups() {
    let a = behavior_of(auto_shift(None, Some("as"))).unwrap().auto_shift.unwrap();
    assert!(a.alpha && a.numeric && a.symbols);
    assert!(a.keys.is_empty());
    assert_eq!(a.profile.as_deref(), Some("as"));
}

#[test]
fn auto_shift_keys_split_groups_from_key_names() {
    let a = behavior_of(auto_shift(Some(vec!["Alpha", "Tab", "ent"]), None))
        .unwrap()
        .auto_shift
        .unwrap();
    assert!(a.alpha && !a.numeric && !a.symbols);
    assert_eq!(a.keys, vec!["Tab".to_string(), "ent".to_string()]);
    assert_eq!(a.profile, None);
}

#[test]
fn auto_shift_rejects_unknown_profile_and_empty_keys() {
    let err = behavior_of(auto_shift(None, Some("nope"))).unwrap_err();
    assert!(err.contains("behavior.auto_shift.profile"), "unexpected error: {}", err);

    let err = behavior_of(auto_shift(Some(vec![]), None)).unwrap_err();
    assert!(err.contains("behavior.auto_shift.keys"), "unexpected error: {}", err);
}

#[test]
fn groups_are_told_by_their_lower_case() {
    let names = vec![text("SYMBOLS"), text("Esc")];
    let lowered = vec![text("symbols"), text("esc")];
    let a = split_key_groups(&names, &lowered, Some(text("p")));
    assert!(!a.alpha && !a.numeric && a.symbols);
    assert_eq!(a.keys, vec![text("Esc")]);
    assert_eq!(a.profile, Some(text("p")));
}

#[test]
fn every_section_of_behavior_resolves() {
    let b = behavior_of(BehaviorConfig {
        tri_layer: Some(TriLayerConfig { upper: 1, lower: 2, adjust: 3 }),
        one_shot: Some(OneShotConfig { timeout: Some(DurationMillis(900)) }),
        one_shot_modifiers: Some(OneShotModifiersConfig {
            activate_on_keypress: Some(true),
            quick_release: None,
        }),
        combo: Some(CombosConfig {
            combos: vec![ComboConfig {
                actions: vec![text("A"), text("B")],
                output: text("C"),
                layer: Some(2),
            }],
            timeout: Some(DurationMillis(50)),
            prior_idle_time: None,
        }),
        macros: Some(MacrosConfig {
            macros: vec![MacroConfig {
                operations: vec![
                    MacroOperationConfig::Tap { keycode: text("A") },
                    MacroOperationConfig::Delay { duration: DurationMillis(30) },
                ],
            }],
        }),
        fork: Some(ForksConfig {
            forks: vec![ForkConfig {
                trigger: text("F1"),
                negative_output: text("A"),
                positive_output: text("B"),
                match_any: Some(text("LShift")),
                match_none: None,
                kept_modifiers: None,
                bindable: None,
            }],
        }),
        auto_mouse_layer: Some(vec![AutoMouseLayerConfig {
            device_id: None,
            target_layer: 4,
            timeout: None,
            threshold: None,
            deactivate_on_key: None,
            extra_mouse_keys: None,
            reset_timeout_on_key: None,
        }]),
        ..no_behavior()
    })
    .unwrap();
    assert_eq!(b.tri_layer, Some([1, 2, 3]));
    assert_eq!(b.one_shot_timeout_ms, Some(900));
    assert_eq!(b.one_shot_modifiers.unwrap().activate_on_keypress, Some(true));
    let combos = b.combos.unwrap();
    assert_eq!((combos.timeout_ms, combos.prior_idle_time_ms), (Some(50), None));
    assert_eq!(combos.combos[0].actions, vec![text("A"), text("B")]);
    assert_eq!(combos.combos[0].layer, Some(2));
    let operations = &b.macros.unwrap().macros[0].operations;
    assert!(matches!(&operations[0], MacroOperation::Tap { keycode } if keycode == "A"));
    assert!(matches!(&operations[1], MacroOperation::Delay { duration_ms: 30 }));
    let fork = &b.forks.unwrap().forks[0];
    assert!(!fork.bindable);
    assert_eq!(fork.match_any, Some(text("LShift")));
    let layer = &b.auto_mouse_layer[0];
    assert_eq!((layer.target_layer, layer.timeout_ms, layer.threshold), (4, 500, 1));
    assert!(b.morse.is_none() && b.auto_shift.is_none());
}

#[test]
fn morse_defaults_and_keys() {
    let key = MorseKeyConfig {
        profile: Some(text("p")),
        tap: Some(text("A")),
        hold: None,
        hold_after_tap: None,
        double_tap: None,
        tap_actions: Some(vec![text("B")]),
        hold_actions: None,
        morse_actions: Some(vec![MorseActionPairConfig { pattern: text(".-"), action: text("C") }]),
    };
    let config = MorseConfig { morses: Some(vec![key]), ..morse(vec![]) };
    let m = behavior_of(BehaviorConfig { morse: Some(config), ..no_behavior() })
        .unwrap()
        .morse
        .unwrap();
    assert!(!m.enable_flow_tap);
    assert_eq!(m.prior_idle_time_ms, 120);
    assert_eq!(m.default_profile.hold_timeout_ms, Some(250));
    assert_eq!(m.default_profile.gap_timeout_ms, Some(250));
    assert_eq!(m.morses[0].tap, Some(text("A")));
    assert_eq!(m.morses[0].tap_actions, Some(vec![text("B")]));
    assert_eq!(m.morses[0].morse_actions.as_ref().unwrap()[0].pattern, ".-");
}

#[test]
fn macro_operations_keep_their_contents() {
    let text_op = resolve_macro_operation(&MacroOperationConfig::Text { text: text("hi") });
    assert!(matches!(text_op, MacroOperation::Text { text } if text == "hi"));
    let down = resolve_macro_operation(&MacroOperationConfig::Down { keycode: text("B") });
    assert!(matches!(down, MacroOperation::Down { keycode } if keycode == "B"));
    let up = resolve_macro_operation(&MacroOperationConfig::Up { keycode: text("B") });
    assert!(matches!(up, MacroOperation::Up { keycode } if keycode == "B"));
}

#[test]
fn a_broken_section_is_reported() {
    let config = KeyboardTomlConfig { behavior: Err(text("no behavior")), ..keyboard() };
    assert_eq!(config.behavior().unwrap_err(), "no behavior");
    let config = KeyboardTomlConfig { chip: Err(text("no chip")), ..keyboard() };
    assert_eq!(config.hardware().unwrap_err(), "no chip");
}

// --- Hardware ---------------------------------------------------------------

fn spi() -> SpiConfig {
    SpiConfig {
        instance: text("SPI0"),
        sck: text("PIN_18"),
        mosi: text("PIN_19"),
        miso: text("PIN_16"),
        cs: None,
    }
}

fn external_flash(dfu_partition_size: Option<u32>) -> ExternalFlashTomlConfig {
    ExternalFlashTomlConfig {
        driver: ExternalFlashDriver::W25q,
        flash_size: 8388608,
        dfu_partition_size,
        init_fn: None,
        spi: spi(),
    }
}

fn with_flash(dfu_partition_size: Option<u32>) -> KeyboardTomlConfig {
    KeyboardTomlConfig {
        dfu: Some(DfuTomlConfig {
            led: None,
            unlock_keys: None,
            external_flash: Some(external_flash(dfu_partition_size)),
        }),
        ..keyboard()
    }
}

fn with_unlock_keys(keys: Vec<[u8; 2]>) -> KeyboardTomlConfig {
    KeyboardTomlConfig {
        dfu: Some(DfuTomlConfig { led: None, unlock_keys: Some(keys), external_flash: None }),
        ..keyboard()
    }
}

#[test]
fn dfu_partition_size_defaults_to_full_flash() {
    let dfu = with_flash(None).hardware().unwrap().dfu.unwrap();
    assert_eq!(dfu.external_flash.unwrap().dfu_partition_size, 8388608);
}

#[test]
fn dfu_partition_size_accepts_sector_aligned_subset() {
    let dfu = with_flash(Some(2097152)).hardware().unwrap().dfu.unwrap();
    assert_eq!(dfu.external_flash.unwrap().dfu_partition_size, 2097152);
}

#[test]
fn dfu_partition_size_rejects_unaligned_size() {
    let err = with_flash(Some(12345)).hardware().unwrap_err();
    assert!(err.contains("multiple of 4096"), "unexpected error: {}", err);
}

#[test]
fn dfu_partition_size_rejects_size_beyond_flash() {
    for size in [0, 8388609, u32::MAX] {
        let err = with_flash(Some(size)).hardware().unwrap_err();
        assert!(err.contains("between 1 and"), "unexpected error for {}: {}", size, err);
    }
}

#[test]
fn dfu_unlock_keys_reject_too_many_entries() {
    let msg = with_unlock_keys(vec![[0, 0], [0, 1], [1, 0], [1, 1], [0, 0]])
        .hardware()
        .unwrap_err();
    assert!(
        msg.contains("[dfu].unlock_keys has 5 entries") && msg.contains("max is 4"),
        "unexpected error: {}",
        msg
    );
}

#[test]
fn dfu_unlock_keys_reject_positions_outside_layout() {
    let msg = with_unlock_keys(vec![[0, 0], [2, 0]]).hardware().unwrap_err();
    assert!(
        msg.contains("[dfu].unlock_keys position (2, 0)") && msg.contains("outside the 2x2 matrix"),
        "unexpected error: {}",
        msg
    );
}

fn led(pin: &str) -> DfuTomlConfig {
    DfuTomlConfig { led: Some(text(pin)), unlock_keys: None, external_flash: None }
}

fn led_and_flash(pin: &str) -> DfuTomlConfig {
    DfuTomlConfig { external_flash: Some(external_flash(None)), ..led(pin) }
}

fn split(
    global: DfuTomlConfig,
    central: Option<DfuTomlConfig>,
    peripheral: Option<DfuTomlConfig>,
) -> KeyboardTomlConfig {
    KeyboardTomlConfig {
        dfu: Some(global),
        split: Some(SplitConfig {
            central: SplitBoardConfig { dfu: central },
            peripheral: vec![SplitBoardConfig { dfu: peripheral }],
        }),
        ..keyboard()
    }
}

#[test]
fn split_side_dfu_replaces_global_per_side() {
    let config = split(led_and_flash("PIN_4"), None, Some(led("PIN_9")));

    // Central: global section with external flash.
    let central = config.split_side_dfu(None).unwrap().unwrap();
    assert_eq!(central.led.map(|l| l.pin), Some("PIN_4".into()));
    assert!(central.external_flash.is_some(), "central should keep the external flash");

    // Peripheral: own section completely replaces the global one.
    let peripheral = config.split_side_dfu(Some(0)).unwrap().unwrap();
    assert_eq!(peripheral.led.map(|l| l.pin), Some("PIN_9".into()));
    assert!(peripheral.external_flash.is_none());
}

#[test]
fn split_side_dfu_falls_back_to_global() {
    let config = split(led("PIN_4"), None, None);
    let central = config.split_side_dfu(None).unwrap().unwrap();
    let peripheral = config.split_side_dfu(Some(0)).unwrap().unwrap();
    assert_eq!(central.led.map(|l| l.pin), Some("PIN_4".into()));
    assert_eq!(peripheral.led.map(|l| l.pin), Some("PIN_4".into()));
}

#[test]
fn split_central_dfu_replaces_global_for_central_only() {
    let config = split(led_and_flash("PIN_4"), Some(led("PIN_9")), None);

    let central = config.split_side_dfu(None).unwrap().unwrap();
    assert_eq!(central.led.map(|l| l.pin), Some("PIN_9".into()));
    assert!(central.external_flash.is_none());

    let peripheral = config.split_side_dfu(Some(0)).unwrap().unwrap();
    assert_eq!(peripheral.led.map(|l| l.pin), Some("PIN_4".into()));
    assert!(peripheral.external_flash.is_some());
}

#[test]
fn storage_has_more_sectors_beside_a_download() {
    let sectors = |t, has_dfu, user_set| resolve_storage(t, has_dfu, user_set).unwrap().num_sectors;
    let three = StorageConfig { num_sectors: Some(3), ..storage() };
    assert_eq!(sectors(storage(), false, false), 2);
    assert_eq!(sectors(storage(), true, false), 8);
    assert_eq!(sectors(three, false, false), 3);
    assert_eq!(sectors(three, true, false), 8);
    assert_eq!(sectors(three, true, true), 3);
    assert_eq!(resolve_storage(StorageConfig { enabled: false, ..storage() }, true, true), None);
    let full = StorageConfig {
        start_addr: Some(4096),
        clear_storage: Some(true),
        clear_layout: Some(true),
        ..storage()
    };
    assert_eq!(
        resolve_storage(full, false, false),
        Some(Storage { start_addr: 4096, num_sectors: 2, clear_storage: true, clear_layout: true })
    );
}

#[test]
fn hardware_hands_its_sections_on() {
    let h = keyboard().hardware().unwrap();
    assert_eq!(h.chip.chip, "rp2040");
    assert_eq!(h.communication.text, "usb");
    assert_eq!(h.output[0].text, "out");
    assert!(h.dfu.is_none());
    assert_eq!(h.storage.unwrap().num_sectors, 2);
}
