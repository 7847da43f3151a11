//! Battery reports, bonds and scans.

use rmk::ble::battery_service::{
    battery_presentation_format, find_peripheral_battery_slot, handle_peripheral_battery_event,
    initialize_peripheral_battery_levels, level_to_store, peripheral_battery_presentation_format, report_gate,
    report_on_activity, update_battery_value, wait_until_awake, BatteryInput,
    BatteryReportDecision, BatteryReporter, BatteryStep, BatteryWait, PeripheralBatteryInput,
    PeripheralBatteryReporter, PeripheralStore, ReportGate, BATTERY_REPORT_INTERVAL_SECS,
    CHARACTERISTIC_PRESENTATION_FORMAT_DESCRIPTION_MAIN, FIRST_BATTERY_REPORT_TIMEOUT_SECS,
    RECENT_ACTIVITY_THRESHOLD_SECS,
};
use rmk::ble::conn::{same_bytes, Address};
use rmk::bounded::{CccdTable, CCCD_TABLE_SIZE};
use rmk::ble::profile::{
    bond_info_of, upsert_bond_info, varint_max, BleProfileAction, BondTable, Identity, ProfileInfo,
    ProfileManager, ProfileStore, BOND_SLOTS, DONGLE_PROFILE,
};
use rmk::ble::scan::{scan_config, start_scan, ScanStep, DONGLE_SCAN_WINDOW_MS, SCAN_RETRY_MS};
use rmk::time::{Duration, Instant};
use rmk::types::{BatteryStatus, ChargeState};

fn secs(s: u64) -> Instant {
    Instant::from_ticks(Duration::from_secs(s).ticks)
}

fn level(level: u8) -> BatteryStatus {
    BatteryStatus::Available {
        charge_state: ChargeState::Discharging,
        level: Some(level),
    }
}

// --- Battery ----------------------------------------------------------------

#[test]
fn battery_presentation_format_uses_assigned_numbers() {
    assert_eq!(
        battery_presentation_format(CHARACTERISTIC_PRESENTATION_FORMAT_DESCRIPTION_MAIN),
        [0x04, 0x00, 0xAD, 0x27, 0x01, 0x06, 0x01]
    );
    assert_eq!(
        battery_presentation_format(0x0001),
        [0x04, 0x00, 0xAD, 0x27, 0x01, 0x01, 0x00]
    );
    assert_eq!(
        battery_presentation_format(0x0002),
        [0x04, 0x00, 0xAD, 0x27, 0x01, 0x02, 0x00]
    );
    assert_eq!(
        battery_presentation_format(0x0003),
        [0x04, 0x00, 0xAD, 0x27, 0x01, 0x03, 0x00]
    );
    assert_eq!(
        battery_presentation_format(0x000F),
        [0x04, 0x00, 0xAD, 0x27, 0x01, 0x0F, 0x00]
    );
}

#[test]
fn peripheral_battery_presentation_format_maps_id_254_to_assigned_description() {
    assert_eq!(
        peripheral_battery_presentation_format(254),
        [0x04, 0x00, 0xAD, 0x27, 0x01, 0xFF, 0x00]
    );
    assert_eq!(
        peripheral_battery_presentation_format(0),
        [0x04, 0x00, 0xAD, 0x27, 0x01, 0x01, 0x00]
    );
    assert_eq!(
        peripheral_battery_presentation_format(2),
        [0x04, 0x00, 0xAD, 0x27, 0x01, 0x03, 0x00]
    );
}

#[test]
fn peripheral_events_map_to_configured_battery_slots() {
    let configured_ids = [0, 2];

    assert_eq!(find_peripheral_battery_slot(&configured_ids, 0), Some(0));
    assert_eq!(find_peripheral_battery_slot(&configured_ids, 1), None);
    assert_eq!(find_peripheral_battery_slot(&configured_ids, 2), Some(1));

    let mut pending_slots = [false; 2];
    pending_slots[find_peripheral_battery_slot(&configured_ids, 2).unwrap()] = true;
    assert_eq!(pending_slots, [false, true]);
}

#[test]
fn battery_value_updates_gatt_storage_without_notification() {
    let mut stored = None;
    for l in [80, 79, 78] {
        if let BatteryStep::Store(value) = update_battery_value(level(l)) {
            stored = Some(value);
        }
    }
    assert_eq!(stored, Some(78));
    assert_eq!(update_battery_value(BatteryStatus::Unavailable), BatteryStep::Nothing);
}

#[test]
fn central_battery_report_gate_drops_stale_activity() {
    let timeout = secs(BATTERY_REPORT_INTERVAL_SECS);
    let now = secs(RECENT_ACTIVITY_THRESHOLD_SECS as u64);
    assert_eq!(report_gate(now, timeout, false), ReportGate::AwaitActivity { until_timeout: true });
    assert_eq!(
        report_on_activity(false, RECENT_ACTIVITY_THRESHOLD_SECS, 0),
        Some(BatteryReportDecision::Drop)
    );
    assert_eq!(
        report_on_activity(false, RECENT_ACTIVITY_THRESHOLD_SECS - 1, 0),
        Some(BatteryReportDecision::Notify)
    );
    // Activity that is stamped later than now is recent.
    assert_eq!(report_on_activity(false, 0, 100), Some(BatteryReportDecision::Notify));
}

#[test]
fn a_passed_timeout_reports_once_awake() {
    let timeout = secs(10);
    assert_eq!(
        report_gate(secs(10), timeout, false),
        ReportGate::Decided(BatteryReportDecision::Notify)
    );
    assert_eq!(
        report_gate(secs(10), timeout, true),
        ReportGate::AwaitActivity { until_timeout: false }
    );
    assert_eq!(report_on_activity(true, 10, 10), None);
}

#[test]
fn peripheral_queue_overflow_refreshes_all_slots() {
    let mut pending_slots = vec![true, false];
    // A queue of two lost the first of three events.
    let queue = [
        PeripheralBatteryInput::Lagged,
        PeripheralBatteryInput::Message { id: 0, state: BatteryStatus::Unavailable },
        PeripheralBatteryInput::Message { id: 0, state: BatteryStatus::Unavailable },
    ];
    let mut stores = Vec::new();
    for result in queue {
        stores.push(handle_peripheral_battery_event(&[0, 2], &mut pending_slots, result));
    }
    assert_eq!(pending_slots, [true, true]);
    assert_eq!(stores[0], PeripheralStore::All);
    assert_eq!(stores[1], PeripheralStore::Nothing);
}

#[test]
fn peripheral_battery_report_gate_allows_awake_without_recent_activity() {
    assert!(!wait_until_awake(false));
}

#[test]
fn initial_battery_report_gate_returns_while_awake() {
    let (mut reporter, _) = BatteryReporter::new(level(50), secs(0));
    assert_eq!(reporter.wait(), BatteryWait::AwakeOrStatus);
    assert!(!wait_until_awake(false));
    assert_eq!(reporter.step(BatteryInput::Awake), BatteryStep::NotifyLatest);
}

#[test]
fn battery_report_gate_waits_until_wake() {
    assert!(wait_until_awake(true));
}

#[test]
fn battery_report_gate_returns_after_wake_activity() {
    let mut sleeping = true;
    let mut waits = 0;
    while wait_until_awake(sleeping) {
        waits += 1;
        sleeping = waits < 2;
    }
    assert_eq!(waits, 2);
}

#[test]
fn the_first_report_waits_for_a_level() {
    let (mut reporter, step) = BatteryReporter::new(BatteryStatus::Unavailable, secs(5));
    assert_eq!(step, BatteryStep::Nothing);
    let deadline = secs(5 + FIRST_BATTERY_REPORT_TIMEOUT_SECS);
    assert_eq!(reporter.wait(), BatteryWait::StatusUntil(deadline));
    // Without a level the event does not end the wait.
    assert_eq!(reporter.step(BatteryInput::Status(BatteryStatus::Unavailable)), BatteryStep::Nothing);
    assert_eq!(reporter.wait(), BatteryWait::StatusUntil(deadline));
    assert_eq!(reporter.step(BatteryInput::Status(level(60))), BatteryStep::Store(60));
    assert_eq!(reporter.step(BatteryInput::Status(level(59))), BatteryStep::Store(59));
    assert_eq!(reporter.step(BatteryInput::Awake), BatteryStep::NotifyLatest);
    // Of what waits, the last counts.
    assert_eq!(reporter.notify_latest(&vec![level(58), level(57)], secs(20)), Some(57));
    assert_eq!(reporter.wait(), BatteryWait::Status);
}

#[test]
fn later_reports_follow_the_decision() {
    let (mut reporter, _) = BatteryReporter::new(BatteryStatus::Unavailable, secs(0));
    reporter.step(BatteryInput::DeadlinePassed);
    assert_eq!(reporter.wait(), BatteryWait::Status);
    reporter.step(BatteryInput::Status(level(10)));
    assert_eq!(
        reporter.wait(),
        BatteryWait::DecisionOrStatus(secs(BATTERY_REPORT_INTERVAL_SECS))
    );
    reporter.step(BatteryInput::Decided(BatteryReportDecision::Drop));
    assert_eq!(reporter.wait(), BatteryWait::Status);
    reporter.step(BatteryInput::Status(level(9)));
    let step = reporter.step(BatteryInput::Decided(BatteryReportDecision::Notify));
    assert_eq!(step, BatteryStep::NotifyLatest);
    assert_eq!(reporter.notify_latest(&Vec::new(), secs(100)), Some(9));
}

#[test]
fn peripheral_levels_are_reported_by_slot() {
    let statuses = vec![Some(level(70)), None, Some(BatteryStatus::Unavailable)];
    assert_eq!(initialize_peripheral_battery_levels(&statuses), vec![(0, 70)]);
    let mut reporter = PeripheralBatteryReporter::new(vec![0, 1, 5], &statuses);
    assert!(reporter.has_pending());
    let store = reporter.on_event(PeripheralBatteryInput::Message { id: 5, state: level(33) });
    assert_eq!(store, PeripheralStore::Level { slot: 2, level: 33 });
    assert_eq!(reporter.next_report(0, true), None);
    assert_eq!(reporter.next_report(0, false), Some((0, 0)));
    assert_eq!(reporter.next_report(1, false), Some((2, 5)));
    assert_eq!(reporter.next_report(3, false), None);
    assert!(!reporter.has_pending());
}

// --- Profiles ---------------------------------------------------------------

#[test]
fn cleared_profile_can_be_paired_again_with_same_bond_information() {
    let profile_info = ProfileInfo::default();
    let mut bonded_devices = BondTable::<1>::new();

    assert_eq!(upsert_bond_info(&mut bonded_devices, &profile_info), Ok(true));
    assert_eq!(upsert_bond_info(&mut bonded_devices, &profile_info), Ok(false));

    bonded_devices.entries[0].removed = true;
    assert_eq!(upsert_bond_info(&mut bonded_devices, &profile_info), Ok(true));
    assert!(!bonded_devices.entries[0].removed);
}

#[test]
fn upsert_fails_without_evicting_when_the_cache_is_full() {
    let mut bonded_devices = BondTable::<1>::new();
    assert_eq!(upsert_bond_info(&mut bonded_devices, &ProfileInfo::default()), Ok(true));

    let other_slot = ProfileInfo {
        slot_num: 1,
        ..Default::default()
    };
    assert_eq!(upsert_bond_info(&mut bonded_devices, &other_slot), Err(()));
    assert_eq!(bonded_devices.entries.len(), 1);
    assert_eq!(bonded_devices.entries[0].slot_num, 0);
}

#[test]
fn cleared_slot_has_no_bond_info() {
    let mut bonded_devices = BondTable::<1>::new();
    assert_eq!(upsert_bond_info(&mut bonded_devices, &ProfileInfo::default()), Ok(true));
    assert!(bond_info_of(&bonded_devices, 0).is_some());

    bonded_devices.entries[0].removed = true;
    assert!(bond_info_of(&bonded_devices, 0).is_none());
}

#[test]
fn bonding_one_slot_leaves_the_others_unbonded() {
    let mut bonded_devices = BondTable::<2>::new();
    assert_eq!(upsert_bond_info(&mut bonded_devices, &ProfileInfo::default()), Ok(true));

    assert!(bond_info_of(&bonded_devices, 0).is_some());
    assert!(bond_info_of(&bonded_devices, 1).is_none());
}

#[test]
fn re_pairing_a_slot_with_different_bond_information_replaces_it() {
    let mut bonded_devices = BondTable::<1>::new();
    assert_eq!(upsert_bond_info(&mut bonded_devices, &ProfileInfo::default()), Ok(true));

    let mut new_host = ProfileInfo::default();
    new_host.info.ltk = 1;
    assert_eq!(upsert_bond_info(&mut bonded_devices, &new_host), Ok(true));
    assert_eq!(bonded_devices.entries[0].info.ltk, 1);
}

fn bonded(slot_num: u8, last: u8, irk: Option<u128>) -> ProfileInfo {
    let mut info = ProfileInfo { slot_num, ..Default::default() };
    info.info.identity = Identity {
        addr: Address::random([1, 2, 3, 4, 5, last]),
        irk,
    };
    info
}

#[test]
fn a_manager_loads_live_bonds_and_cycles_host_profiles() {
    let mut manager = ProfileManager::<BOND_SLOTS>::new();
    let mut removed = bonded(1, 1, None);
    removed.removed = true;
    let stored = vec![Some(bonded(0, 0, None)), Some(removed), None];
    assert!(manager.load_bonded_devices(&stored, None));
    assert!(manager.is_bonded(0) && !manager.is_bonded(1));
    assert!(manager.active_bond_info().is_some());

    assert!(matches!(
        manager.update_profile(BleProfileAction::Previous),
        (ProfileStore::ActiveProfile(2), true)
    ));
    assert!(manager.update_stack_bonds().is_none());
    assert!(matches!(
        manager.update_profile(BleProfileAction::Next),
        (ProfileStore::ActiveProfile(0), true)
    ));
    assert!(matches!(
        manager.update_profile(BleProfileAction::Switch(0)),
        (ProfileStore::Nothing, false)
    ));
    // From the dongle's slot, cycling goes back to the first host.
    manager.update_profile(BleProfileAction::Switch(DONGLE_PROFILE));
    manager.update_profile(BleProfileAction::Next);
    assert_eq!(manager.active, 0);
    assert!(matches!(
        manager.update_profile(BleProfileAction::ClearBond),
        (ProfileStore::ClearSlot(0), true)
    ));
    assert!(!manager.is_bonded(0));
}

#[test]
fn a_client_configuration_table_has_its_limit() {
    assert!(CccdTable::from_slice(&[7; CCCD_TABLE_SIZE]).is_ok());
    assert_eq!(CccdTable::from_slice(&[7; CCCD_TABLE_SIZE + 1]), Err(()));
    assert!(CccdTable::new().as_slice().is_empty());
}

#[test]
fn the_last_waiting_level_is_stored() {
    let known = |n| BatteryStatus::Available { charge_state: ChargeState::Charging, level: n };
    assert_eq!(level_to_store(&vec![]), None);
    assert_eq!(level_to_store(&vec![known(Some(7)), known(Some(9))]), Some(9));
    assert_eq!(level_to_store(&vec![known(Some(7)), known(None)]), Some(7));
    assert_eq!(level_to_store(&vec![BatteryStatus::Unavailable]), None);
}

#[test]
fn what_enters_the_table_is_stored() {
    let mut manager = ProfileManager::<BOND_SLOTS>::new();
    let info = bonded(0, 9, None);
    assert!(matches!(manager.add_profile_info(&info), ProfileStore::ProfileInfo(_)));
    assert!(matches!(manager.add_profile_info(&info), ProfileStore::Nothing));
    let table = || CccdTable::from_slice(&[1, 0]).unwrap();
    match manager.update_profile_cccd_table(table()) {
        ProfileStore::ProfileInfo(p) => assert_eq!(p.cccd_table.as_slice(), [1, 0]),
        other => panic!("{:?}", other),
    }
    assert!(matches!(manager.update_profile_cccd_table(table()), ProfileStore::Nothing));
    assert!(matches!(
        manager.update_profile(BleProfileAction::ClearSlot(0)),
        (ProfileStore::ClearSlot(0), true)
    ));
}

#[test]
fn a_dongle_is_known_by_address_or_key() {
    let mut manager = ProfileManager::<BOND_SLOTS>::new();
    manager.add_profile_info(&bonded(DONGLE_PROFILE, 7, Some(0x1234)));
    manager.add_profile_info(&bonded(0, 8, None));
    let by_addr = bonded(0, 7, None).info.identity;
    assert!(manager.is_bonded_dongle(&by_addr));
    // The same key under another address.
    let by_key = bonded(0, 99, Some(0x1234)).info.identity;
    assert!(manager.is_bonded_dongle(&by_key));
    // A bonded host is no dongle, and a stranger neither.
    assert!(!manager.is_bonded_dongle(&bonded(0, 8, None).info.identity));
    assert!(!manager.is_bonded_dongle(&bonded(0, 99, Some(0x77)).info.identity));
    manager.clear_bond(DONGLE_PROFILE);
    assert!(!manager.is_bonded_dongle(&by_addr));
}

#[test]
fn encoded_numbers_take_seven_bits_a_byte() {
    assert_eq!(varint_max::<u8>(), 2);
    assert_eq!(varint_max::<u16>(), 3);
    assert_eq!(varint_max::<u32>(), 5);
    assert_eq!(varint_max::<u64>(), 10);
    assert_eq!(varint_max::<u128>(), 19);
}

// --- Addresses and scans ----------------------------------------------------

#[test]
fn resolved_addresses_name_the_same_device() {
    let a = Address { kind: 1, addr: [1; 6] };
    assert!(a.same(&Address { kind: 3, addr: [1; 6] }));
    assert!(!a.same(&Address { kind: 2, addr: [1; 6] }));
    assert!(!a.same(&Address { kind: 1, addr: [2; 6] }));
    assert!(same_bytes(&[1, 2, 3, 4, 5, 6], &[1, 2, 3, 4, 5, 6]));
    assert!(!same_bytes(&[1, 2, 3, 4, 5, 6], &[1, 2, 3, 4, 5, 7]));
}

#[test]
fn a_refused_scan_is_tried_again() {
    assert_eq!(start_scan(true), ScanStep::Started);
    assert_eq!(start_scan(false), ScanStep::RetryAfterMillis(SCAN_RETRY_MS));
    let config = scan_config(DONGLE_SCAN_WINDOW_MS);
    assert!(!config.active);
    assert_eq!((config.interval_ms, config.window_ms), (100, 60));
}
