//! The split keyboard: central, peripherals, and firmware between them.

use rmk::bounded::DfuBlock;
use rmk::ble::conn::Address;
use rmk::crc32::crc32;
use rmk::dfu::{DfuCmd, DfuTarget};
use rmk::split::ble::central::{
    calc_max_latency, calc_min_timeout_ms, default_central_conn_param,
    default_central_subrate_params, gatt_write_outcome, is_activity, on_adv_reports,
    sleep_central_conn_param, sleep_central_subrate_params, update_subrate_factor, Adv, GattWrite,
    LinkSlots, RadioTask, SleepFollower, SubrateReply, SubrateStep, SUBRATE_TRIES,
};
use rmk::split::ble::peripheral::{
    delivers_custom, dfu_advertise_name, notify_outcome, truncate_name, AdvertiseOutcome,
    CustomMessageTarget, LinkEvent, LinkPhase, LinkStep, PeripheralLink, PhaseEnd, ReadStep,
    SplitLink, BLE_ADV_NAME_MAX_LEN, DFU_ADVERTISE_SECS, DIRECTED_SECS,
};
use rmk::split::ble::peripheral;
use rmk::split::ble::{
    read_outcome, split_channel_config, write_outcome, ChannelReading, ChannelSending, PeerAddress,
};
use rmk::split::dfu::{FirmwareUpdate, LinkAction, LinkInput, UpdatePolicy};
use rmk::split::driver::{
    message_for_event, CentralEvent, ManagerInput, ManagerStep, PeripheralEffect,
    PeripheralManager, PeripheralMatrixConfig, PeripheralSlots, SplitDriverError,
};
use rmk::split::passthrough::{handle_proactive_hash, FirmwareCheck, Passthrough};
use rmk::split::peripheral::{
    message_for_local, LocalEvent, PeripheralInput, PeripheralStep, SplitPeripheral,
};
use rmk::split::{SplitMessage, SPLIT_CHUNK_SIZE, SPLIT_PERIPHERALS_NUM};
use rmk::types::{
    BatteryStatus, ChargeState, ConnectionStatus, DfuStatus, KeyboardEvent, KeyboardEventPos,
};

// --- Status of the peripherals ----------------------------------------------

#[test]
fn caches_latest_peripheral_battery_status() {
    let status = BatteryStatus::Available {
        charge_state: ChargeState::Discharging,
        level: Some(73),
    };

    let mut slots = PeripheralSlots::new();
    slots.set_peripheral_battery(0, status);

    assert_eq!(slots.current_peripheral_battery_status(0), Some(status));
    assert_eq!(slots.current_peripheral_battery_status(SPLIT_PERIPHERALS_NUM), None);
}

#[test]
fn only_changes_are_broadcast() {
    let mut slots = PeripheralSlots::new();
    let event = slots.set_peripheral_connected(1, true).unwrap();
    assert_eq!((event.id, event.connected), (1, true));
    assert!(slots.set_peripheral_connected(1, true).is_none());
    assert!(slots.set_peripheral_connected(SPLIT_PERIPHERALS_NUM, true).is_none());
    assert!(slots.set_peripheral_battery(1, BatteryStatus::Unavailable).is_none());
    let status = slots.current_peripheral_status(1).unwrap();
    assert!(status.connected);
    assert_eq!(status.battery, BatteryStatus::Unavailable);
    assert!(slots.current_peripheral_status(9).is_none());
}

// --- The manager ------------------------------------------------------------

fn manager() -> PeripheralManager {
    let config = PeripheralMatrixConfig { rows: 2, cols: 3, row_offset: 4, col_offset: 7 };
    PeripheralManager::new(2, config, UpdatePolicy::MatchHash)
}

#[test]
fn peripheral_keys_are_placed_in_the_keymap() {
    let m = manager();
    assert_eq!(
        m.process_peripheral_message(SplitMessage::Key(KeyboardEvent::key(1, 2, true))),
        PeripheralEffect::PublishKey(KeyboardEvent::key(5, 9, true))
    );
    assert_eq!(
        m.process_peripheral_message(SplitMessage::Key(KeyboardEvent::key(2, 0, true))),
        PeripheralEffect::Ignore
    );
    let turn = KeyboardEvent {
        pos: KeyboardEventPos::RotaryEncoder { id: 9, clockwise: false },
        pressed: true,
    };
    assert_eq!(
        m.process_peripheral_message(SplitMessage::Key(turn)),
        PeripheralEffect::PublishKey(turn)
    );
    assert_eq!(
        m.process_peripheral_message(SplitMessage::BatteryStatus(BatteryStatus::Unavailable)),
        PeripheralEffect::SetBattery(BatteryStatus::Unavailable)
    );
    assert_eq!(m.process_peripheral_message(SplitMessage::Layer(1)), PeripheralEffect::Ignore);
}

#[test]
fn the_manager_tells_and_listens() {
    let m = manager();
    assert_eq!(
        m.greeting(ConnectionStatus::new()),
        SplitMessage::ConnectionStatus(ConnectionStatus::new())
    );
    assert_eq!(
        m.step(ManagerInput::Peripheral(Ok(SplitMessage::FirmwareHashResponse(5)))),
        ManagerStep::CheckHash(5)
    );
    assert_eq!(
        m.step(ManagerInput::Peripheral(Err(SplitDriverError::Disconnected))),
        ManagerStep::Apply(PeripheralEffect::Ignore)
    );
    assert_eq!(
        m.step(ManagerInput::Central(CentralEvent::Layer(3))),
        ManagerStep::Tell(None, SplitMessage::Layer(3))
    );
    match m.step(ManagerInput::Central(CentralEvent::ClearPeer)) {
        ManagerStep::Tell(Some(peer), SplitMessage::ClearPeer) => {
            assert_eq!((peer.peer_id, peer.is_valid, peer.address), (2, false, [0; 6]));
        }
        other => panic!("{:?}", other),
    }
    assert_eq!(
        m.step(ManagerInput::Dfu(DfuCmd::UnlockRequest)),
        ManagerStep::Forward(DfuCmd::UnlockRequest)
    );
    assert_eq!(message_for_event(0, CentralEvent::Wpm(80)).1, SplitMessage::Wpm(80));
    assert_eq!(message_for_event(0, CentralEvent::Sleep(true)).1, SplitMessage::SleepState(true));
    assert_eq!(message_for_event(0, CentralEvent::Modifier(2)).1, SplitMessage::Modifier(2));
    assert_eq!(message_for_event(0, CentralEvent::Indicator(1)).1, SplitMessage::KeyboardIndicator(1));
}

// --- Sending a whole image --------------------------------------------------

/// A peripheral that stores what it is sent.
struct Flash {
    peripheral: SplitPeripheral,
    image: Vec<u8>,
    outbox: Vec<SplitMessage>,
    restarted: bool,
}

impl Flash {
    fn new() -> Self {
        Flash { peripheral: SplitPeripheral::new(), image: Vec::new(), outbox: Vec::new(), restarted: false }
    }

    fn take(&mut self, message: SplitMessage) {
        let mut input = PeripheralInput::Central(Ok(message));
        loop {
            match self.peripheral.step(input) {
                PeripheralStep::WriteChunk { offset, data } => {
                    let end = offset as usize + data.len();
                    if self.image.len() < end {
                        self.image.resize(end, 0xFF);
                    }
                    self.image[offset as usize..end].copy_from_slice(&data);
                    input = PeripheralInput::Written(true);
                }
                PeripheralStep::ReadImageBack => {
                    input = PeripheralInput::ReadBack(Some(crc32(&self.image)));
                }
                PeripheralStep::ReportCrc(crc) => {
                    self.outbox.push(SplitMessage::FirmwareCrcReport(crc));
                    return;
                }
                PeripheralStep::Send(m) => {
                    self.outbox.push(m);
                    return;
                }
                PeripheralStep::ConfirmAndRestart => {
                    self.outbox.push(SplitMessage::FirmwareUpdateConfirm);
                    self.restarted = true;
                    return;
                }
                _ => return,
            }
        }
    }
}

fn image(len: usize) -> Vec<u8> {
    (0..len).map(|i| (i * 7 % 256) as u8).collect()
}

/// Runs an update to its end; `answer` decides on each reading.
fn run_update(
    update: &mut FirmwareUpdate,
    flash: &mut Flash,
    mut answer: impl FnMut(&mut Flash) -> LinkInput,
) -> Vec<DfuStatus> {
    let mut published = Vec::new();
    loop {
        let input = match update.action() {
            LinkAction::Send(m) => {
                flash.take(m);
                LinkInput::Sent(true)
            }
            LinkAction::Read { .. } => answer(flash),
            LinkAction::Publish(status) => {
                published.push(status);
                LinkInput::Done
            }
            LinkAction::Abort | LinkAction::Pause { .. } => LinkInput::Done,
            LinkAction::Stop => return published,
        };
        update.advance(&input);
    }
}

fn faithful(flash: &mut Flash) -> LinkInput {
    if flash.outbox.is_empty() {
        LinkInput::TimedOut
    } else {
        LinkInput::Received(flash.outbox.remove(0))
    }
}

#[test]
fn a_faithful_link_updates_the_peripheral() {
    let firmware = image(300);
    let mut flash = Flash::new();
    let mut update = FirmwareUpdate::send_firmware_update(&firmware, crc32(&firmware));
    let published = run_update(&mut update, &mut flash, faithful);
    assert_eq!(published[0], DfuStatus::Started);
    assert_eq!(published.iter().filter(|s| **s == DfuStatus::Downloading).count(), 3);
    assert_eq!(*published.last().unwrap(), DfuStatus::Finished);
    assert_eq!(flash.image, firmware);
    assert!(flash.restarted);
}

#[test]
fn a_lost_acknowledgement_is_retried() {
    let firmware = image(SPLIT_CHUNK_SIZE);
    let mut flash = Flash::new();
    let mut update = FirmwareUpdate::send_firmware_update(&firmware, crc32(&firmware));
    let mut lost = 0;
    let published = run_update(&mut update, &mut flash, |flash| {
        if lost < 2 {
            lost += 1;
            flash.outbox.clear();
            LinkInput::TimedOut
        } else {
            faithful(flash)
        }
    });
    assert_eq!(*published.last().unwrap(), DfuStatus::Finished);
    assert_eq!(published.iter().filter(|s| **s == DfuStatus::Downloading).count(), 3);
    assert_eq!(flash.image, firmware);
}

#[test]
fn a_silent_peripheral_fails_after_all_attempts() {
    let firmware = image(10);
    let mut flash = Flash::new();
    let mut update = FirmwareUpdate::send_firmware_update(&firmware, crc32(&firmware));
    let published = run_update(&mut update, &mut flash, |_| LinkInput::TimedOut);
    assert_eq!(published.iter().filter(|s| **s == DfuStatus::Started).count(), 3);
    assert_eq!(published.iter().filter(|s| **s == DfuStatus::Downloading).count(), 9);
    assert_eq!(*published.last().unwrap(), DfuStatus::Error);
    assert!(!flash.restarted);
}

#[test]
fn an_image_with_the_wrong_hash_is_never_offered() {
    let firmware = image(10);
    let mut flash = Flash::new();
    let mut update = FirmwareUpdate::send_firmware_update(&firmware, crc32(&firmware) ^ 1);
    let published = run_update(&mut update, &mut flash, faithful);
    assert_eq!(*published.last().unwrap(), DfuStatus::Error);
    assert!(!flash.restarted);
}

#[test]
fn a_differing_copy_is_rejected() {
    let firmware = image(10);
    let mut flash = Flash::new();
    let mut update = FirmwareUpdate::send_firmware_update(&firmware, crc32(&firmware));
    let published = run_update(&mut update, &mut flash, |flash| match faithful(flash) {
        LinkInput::Received(SplitMessage::FirmwareCrcReport(crc)) => {
            LinkInput::Received(SplitMessage::FirmwareCrcReport(!crc))
        }
        other => other,
    });
    assert_eq!(*published.last().unwrap(), DfuStatus::Error);
    assert!(!flash.restarted);
}

// --- Forwarding a download --------------------------------------------------

fn write(id: u8, offset: u32, data: &[u8]) -> DfuCmd {
    DfuCmd::Write(DfuTarget::ForwardPeripheral(id), offset, DfuBlock::from_slice(data).unwrap())
}

/// Works a command off; the messages sent and what became known.
fn pass(
    p: &mut Passthrough,
    flash: &mut Flash,
    cmd: &DfuCmd,
    mut answer: impl FnMut(&mut Flash) -> LinkInput,
) -> (Vec<SplitMessage>, Vec<DfuStatus>) {
    let mut sent = Vec::new();
    let mut known = Vec::new();
    p.handle_dfu_event(cmd);
    loop {
        let input = match p.action() {
            LinkAction::Send(m) => {
                sent.push(m.clone());
                flash.take(m);
                LinkInput::Sent(true)
            }
            LinkAction::Read { .. } => answer(flash),
            LinkAction::Publish(status) => {
                known.push(status);
                LinkInput::Done
            }
            LinkAction::Abort => {
                known.push(DfuStatus::Error);
                LinkInput::Done
            }
            LinkAction::Pause { .. } => LinkInput::Done,
            LinkAction::Stop => return (sent, known),
        };
        p.advance(&input);
    }
}

#[test]
fn a_download_is_forwarded_and_verified() {
    let data = image(700);
    let mut p = Passthrough::new(1);
    let mut flash = Flash::new();
    pass(&mut p, &mut flash, &DfuCmd::Start(DfuTarget::ForwardPeripheral(1)), faithful);
    pass(&mut p, &mut flash, &write(1, 0, &data[..512]), faithful);
    let (sent, _) = pass(&mut p, &mut flash, &write(1, 512, &data[512..]), faithful);
    assert_eq!(sent.len(), 2);
    assert!(matches!(sent[1], SplitMessage::FirmwareChunk { offset: 640, len: 60, .. }));
    // Commands for others pass by.
    let (sent, _) = pass(&mut p, &mut flash, &write(2, 0, &data[..16]), faithful);
    assert!(sent.is_empty());
    let finish = DfuCmd::Finish(DfuTarget::ForwardPeripheral(1));
    let (_, known) = pass(&mut p, &mut flash, &finish, faithful);
    assert_eq!(known, vec![DfuStatus::Finished]);
    assert_eq!(flash.image, data);
    assert!(flash.restarted);
}

#[test]
fn a_copy_that_differs_is_turned_down_at_the_end() {
    let data = image(100);
    let start = DfuCmd::Start(DfuTarget::ForwardPeripheral(1));
    let finish = DfuCmd::Finish(DfuTarget::ForwardPeripheral(1));
    let mut p = Passthrough::new(1);
    let mut flash = Flash::new();
    pass(&mut p, &mut flash, &start, faithful);
    pass(&mut p, &mut flash, &write(1, 0, &data), faithful);
    flash.image[40] ^= 1;
    let (sent, known) = pass(&mut p, &mut flash, &finish, faithful);
    assert_eq!(sent, vec![SplitMessage::FirmwareUpdateComplete, SplitMessage::FirmwareCrcFail]);
    assert_eq!(known, vec![DfuStatus::Error]);
    assert!(!flash.restarted);
}

#[test]
fn other_messages_do_not_end_the_wait_for_the_copy() {
    let data = image(100);
    let start = DfuCmd::Start(DfuTarget::ForwardPeripheral(1));
    let finish = DfuCmd::Finish(DfuTarget::ForwardPeripheral(1));
    let mut p = Passthrough::new(1);
    let mut flash = Flash::new();
    pass(&mut p, &mut flash, &start, faithful);
    pass(&mut p, &mut flash, &write(1, 0, &data), faithful);
    let mut others = 3;
    let (sent, known) = pass(&mut p, &mut flash, &finish, |flash| {
        if others > 0 {
            others -= 1;
            LinkInput::Received(SplitMessage::Layer(1))
        } else {
            faithful(flash)
        }
    });
    assert_eq!(sent, vec![SplitMessage::FirmwareUpdateComplete, SplitMessage::FirmwareCrcOk]);
    assert_eq!(known, vec![DfuStatus::Finished]);
    assert!(flash.restarted);
}

#[test]
fn an_aborted_download_forwards_nothing_more() {
    let mut p = Passthrough::new(1);
    let mut flash = Flash::new();
    pass(&mut p, &mut flash, &DfuCmd::Start(DfuTarget::ForwardPeripheral(1)), faithful);
    let (sent, known) = pass(&mut p, &mut flash, &write(1, 0, &[1, 2]), |_| LinkInput::ReadError);
    assert_eq!(sent.len(), 3);
    assert_eq!(known, vec![DfuStatus::Error]);
    let finish = DfuCmd::Finish(DfuTarget::ForwardPeripheral(1));
    for cmd in [write(1, 2, &[3]), finish] {
        assert!(pass(&mut p, &mut flash, &cmd, faithful).0.is_empty());
    }
    // A reset is forwarded, and writes go through again.
    let reset = DfuCmd::SystemReset(DfuTarget::ForwardPeripheral(1));
    assert_eq!(pass(&mut p, &mut flash, &reset, faithful).0, vec![SplitMessage::SystemReset]);
    flash.outbox.clear();
    assert_eq!(pass(&mut p, &mut flash, &write(1, 0, &[3]), faithful).0.len(), 1);
}

#[test]
fn a_peripheral_is_asked_for_its_firmware() {
    let mut check = FirmwareCheck::check_firmware_update(Some(7), UpdatePolicy::MatchHash);
    assert_eq!(check.action(), LinkAction::Send(SplitMessage::FirmwareHashQuery));
    check.advance(&LinkInput::Sent(true));
    check.advance(&LinkInput::Received(SplitMessage::Layer(1)));
    check.advance(&LinkInput::Received(SplitMessage::FirmwareHashResponse(7)));
    assert!(!handle_proactive_hash(Some(7), 7));
    assert!(handle_proactive_hash(Some(7), 8));
    assert!(!handle_proactive_hash(None, 8));
    assert_eq!(check.phase, rmk::split::passthrough::CheckPhase::Leave);
    // Only an answer that differs calls for an update.
    let mut check = FirmwareCheck::check_firmware_update(Some(7), UpdatePolicy::MatchHash);
    check.advance(&LinkInput::Sent(true));
    check.advance(&LinkInput::Received(SplitMessage::FirmwareHashResponse(8)));
    assert_eq!(check.phase, rmk::split::passthrough::CheckPhase::Update);
    // One that does not answer is left alone; its hash may still come later.
    for end in [LinkInput::TimedOut, LinkInput::ReadError] {
        let mut check = FirmwareCheck::check_firmware_update(Some(7), UpdatePolicy::MatchHash);
        check.advance(&LinkInput::Sent(true));
        check.advance(&end);
        assert_eq!(check.phase, rmk::split::passthrough::CheckPhase::Leave);
        assert_eq!(check.action(), LinkAction::Stop);
    }
    let check = FirmwareCheck::check_firmware_update(Some(7), UpdatePolicy::Force);
    assert_eq!(check.phase, rmk::split::passthrough::CheckPhase::Update);
    let check = FirmwareCheck::check_firmware_update(None, UpdatePolicy::Force);
    assert_eq!(check.phase, rmk::split::passthrough::CheckPhase::Leave);
}

// --- The peripheral ---------------------------------------------------------

#[test]
fn a_peripheral_tells_of_its_own() {
    assert_eq!(
        message_for_local(LocalEvent::Key(KeyboardEvent::key(0, 1, true))),
        SplitMessage::Key(KeyboardEvent::key(0, 1, true))
    );
    assert_eq!(
        message_for_local(LocalEvent::Charging(true)),
        SplitMessage::BatteryStatus(BatteryStatus::Available {
            charge_state: ChargeState::Charging,
            level: None,
        })
    );
    let mut p = SplitPeripheral::new();
    assert_eq!(p.greeting(9), SplitMessage::FirmwareHashResponse(9));
    assert_eq!(
        p.step(PeripheralInput::Local(LocalEvent::Battery(BatteryStatus::Unavailable))),
        PeripheralStep::Send(SplitMessage::BatteryStatus(BatteryStatus::Unavailable))
    );
}

#[test]
fn a_peripheral_follows_its_central() {
    let mut p = SplitPeripheral::new();
    let mut on = |m| p.step(PeripheralInput::Central(Ok(m)));
    let status = ConnectionStatus::new();
    assert_eq!(on(SplitMessage::ConnectionStatus(status)), PeripheralStep::AdoptStatus(status));
    assert_eq!(on(SplitMessage::ClearPeer), PeripheralStep::ForgetCentral);
    assert_eq!(on(SplitMessage::KeyboardIndicator(3)), PeripheralStep::PublishIndicator(3));
    assert_eq!(on(SplitMessage::Layer(2)), PeripheralStep::PublishLayer(2));
    assert_eq!(on(SplitMessage::Wpm(77)), PeripheralStep::PublishWpm(77));
    assert_eq!(on(SplitMessage::Modifier(1)), PeripheralStep::PublishModifier(1));
    assert_eq!(on(SplitMessage::SleepState(true)), PeripheralStep::PublishSleep(true));
    assert_eq!(on(SplitMessage::FirmwareHashQuery), PeripheralStep::SendFirmwareHash);
    assert_eq!(on(SplitMessage::SystemReset), PeripheralStep::Restart);
    assert_eq!(on(SplitMessage::FirmwareCrcOk), PeripheralStep::Idle);
    assert_eq!(
        p.step(PeripheralInput::Central(Err(SplitDriverError::DeserializeError))),
        PeripheralStep::Idle
    );
    assert_eq!(
        p.step(PeripheralInput::Central(Err(SplitDriverError::Disconnected))),
        PeripheralStep::Stop
    );
}

#[test]
fn a_failed_write_is_not_acknowledged_and_a_failed_verdict_boots_nothing() {
    let mut p = SplitPeripheral::new();
    let chunk = SplitMessage::FirmwareChunk { offset: 0, len: 2, data: [5; SPLIT_CHUNK_SIZE] };
    assert_eq!(
        p.step(PeripheralInput::Central(Ok(chunk))),
        PeripheralStep::WriteChunk { offset: 0, data: vec![5, 5] }
    );
    assert_eq!(p.step(PeripheralInput::Written(false)), PeripheralStep::Idle);
    for verdict in [
        PeripheralInput::Central(Ok(SplitMessage::FirmwareCrcFail)),
        PeripheralInput::VerdictTimeout,
    ] {
        p.step(PeripheralInput::Central(Ok(SplitMessage::FirmwareUpdateComplete)));
        assert_eq!(p.step(PeripheralInput::ReadBack(Some(1))), PeripheralStep::ReportCrc(1));
        assert_eq!(p.step(verdict), PeripheralStep::Idle);
    }
    p.step(PeripheralInput::Central(Ok(SplitMessage::FirmwareUpdateComplete)));
    assert_eq!(p.step(PeripheralInput::ReadBack(None)), PeripheralStep::Idle);
}

// --- The BLE link, central --------------------------------------------------

fn peer(id: u8, last: u8, is_valid: bool) -> PeerAddress {
    PeerAddress { peer_id: id, is_valid, address: [1, 1, 1, 1, 1, last] }
}

#[test]
fn known_peripherals_are_connected_before_unknown_ones_are_found() {
    let mut slots = LinkSlots::load(&vec![Some(peer(0, 10, true)), Some(peer(1, 11, false)), Some(peer(2, 12, true))]);
    assert!(matches!(slots.scan_and_connect_peripherals(true), RadioTask::Sleep));
    let pending = match slots.scan_and_connect_peripherals(false) {
        RadioTask::Connect(p) => p,
        _ => panic!("peripherals are known"),
    };
    let ids: Vec<usize> = pending.as_slice().iter().map(|p| p.0).collect();
    assert_eq!(ids, vec![0, 2]);
    let other = Address::random([1, 1, 1, 1, 1, 12]);
    assert_eq!(slots.connected(&pending, &other), Some(2));
    let pending = match slots.scan_and_connect_peripherals(false) {
        RadioTask::Connect(p) => p,
        _ => panic!("one is left"),
    };
    assert_eq!(slots.connected(&pending, &other), None);
    // Nobody answers: their addresses are given up, and they are looked for.
    slots.connect_timed_out(&pending);
    assert!(matches!(slots.scan_and_connect_peripherals(false), RadioTask::Scan));
    let found = slots.found(0, [9; 6]).unwrap();
    assert_eq!((found.peer_id, found.is_valid, found.address), (0, true, [9; 6]));
    assert!(slots.found(0, [8; 6]).is_none());
    assert!(slots.found(2, [8; 6]).is_none());
    assert!(slots.found(200, [8; 6]).is_none());
    slots.session_ended(2);
    assert!(matches!(slots.scan_and_connect_peripherals(false), RadioTask::Connect(p) if p.as_slice().len() == 2));
}

#[test]
fn a_fully_linked_central_parks() {
    let stored = (0..SPLIT_PERIPHERALS_NUM).map(|i| Some(peer(i as u8, i as u8, true))).collect();
    let mut slots = LinkSlots::load(&stored);
    for i in 0..SPLIT_PERIPHERALS_NUM {
        if let RadioTask::Connect(p) = slots.scan_and_connect_peripherals(false) {
            let addr = Address::random([1, 1, 1, 1, 1, i as u8]);
            assert_eq!(slots.connected(&p, &addr), Some(i));
        }
    }
    assert!(matches!(slots.scan_and_connect_peripherals(false), RadioTask::Park));
}

#[test]
fn the_first_peripheral_advertisement_counts() {
    let reports = vec![
        (Adv::Other, [1; 6]),
        (Adv::DongleSeeking, [2; 6]),
        (Adv::SplitPeripheral { id: 1 }, [3; 6]),
        (Adv::SplitPeripheral { id: 2 }, [4; 6]),
    ];
    assert_eq!(on_adv_reports(&reports), Some((1, [3; 6])));
    assert_eq!(on_adv_reports(&vec![(Adv::Other, [1; 6])]), None);
}

#[test]
fn keys_and_motion_are_activity() {
    assert!(is_activity(&SplitMessage::Key(KeyboardEvent::key(0, 0, true))));
    assert!(!is_activity(&SplitMessage::BatteryStatus(BatteryStatus::Unavailable)));
    assert_eq!(gatt_write_outcome(GattWrite::Written, 20), Ok(20));
    assert_eq!(gatt_write_outcome(GattWrite::NotFound, 20), Err(SplitDriverError::Disconnected));
}

#[test]
fn link_parameters_follow_sleep() {
    let awake = default_central_conn_param();
    let asleep = sleep_central_conn_param(true);
    let alone = sleep_central_conn_param(false);
    assert!(awake.max_interval_us <= asleep.max_interval_us);
    assert!(asleep.max_interval_us <= alone.max_interval_us);
    let mut follower = SleepFollower::new();
    assert!(follower.follow_sleep_state(false, true).is_none());
    assert_eq!(follower.follow_sleep_state(true, true), Some(asleep));
    follower.updated(true, false);
    assert_eq!(follower.follow_sleep_state(true, false), Some(alone));
    follower.updated(true, true);
    assert!(follower.follow_sleep_state(true, false).is_none());
    assert_eq!(follower.follow_sleep_state(false, true), Some(awake));
}

#[test]
fn subrating_stays_within_its_limits() {
    assert_eq!(calc_max_latency(1), 499);
    assert_eq!(calc_max_latency(500), 0);
    assert_eq!(calc_min_timeout_ms(0, 1), 30);
    assert_eq!(calc_min_timeout_ms(65534, 4), 3_932_115);
    assert_eq!(default_central_subrate_params().subrate_min, 1);
    assert!(sleep_central_subrate_params(true).subrate_max < sleep_central_subrate_params(false).subrate_max);
    assert_eq!(update_subrate_factor(0, SubrateReply::Accepted), SubrateStep::Done(true));
    assert_eq!(update_subrate_factor(0, SubrateReply::Busy), SubrateStep::Retry);
    assert_eq!(update_subrate_factor(SUBRATE_TRIES - 1, SubrateReply::Busy), SubrateStep::Done(false));
    assert_eq!(update_subrate_factor(0, SubrateReply::Failed), SubrateStep::Done(false));
}

#[test]
fn channel_errors_end_the_session() {
    assert_eq!(read_outcome(ChannelReading::Failed), Err(SplitDriverError::Disconnected));
    assert_eq!(read_outcome(ChannelReading::Undecodable), Err(SplitDriverError::DeserializeError));
    assert_eq!(read_outcome(ChannelReading::Message(SplitMessage::ClearPeer)), Ok(SplitMessage::ClearPeer));
    assert_eq!(write_outcome(ChannelSending::NotEncoded), Err(SplitDriverError::SerializeError));
    assert_eq!(write_outcome(ChannelSending::Sent(7)), Ok(7));
    assert_eq!(write_outcome(ChannelSending::Failed), Err(SplitDriverError::Disconnected));
    assert_eq!(write_outcome(ChannelSending::TimedOut), Err(SplitDriverError::Disconnected));
    assert_eq!(split_channel_config(140).credit_threshold, 8);
}

// --- The BLE link, peripheral -----------------------------------------------

#[test]
fn writes_are_told_apart_by_handle() {
    let link = SplitLink { message_to_peripheral: 5, custom_to_peripheral: Some(6) };
    assert_eq!(link.read(LinkEvent::GattWrite { handle: 5 }), LinkStep::DecodeMessage);
    assert_eq!(link.read(LinkEvent::GattWrite { handle: 6 }), LinkStep::DecodeCustom);
    assert_eq!(link.read(LinkEvent::GattWrite { handle: 7 }), LinkStep::Accept);
    assert_eq!(link.read(LinkEvent::GattRead), LinkStep::Accept);
    assert_eq!(link.read(LinkEvent::Other), LinkStep::Ignore);
    assert_eq!(link.read(LinkEvent::Disconnected), LinkStep::Fail);
    assert_eq!(link.decoded(None), ReadStep::Accept);
    assert_eq!(link.decoded(Some(SplitMessage::ClearPeer)), ReadStep::Deliver(SplitMessage::ClearPeer));
    assert!(delivers_custom(Some(CustomMessageTarget::Peripherals)));
    assert!(!delivers_custom(Some(CustomMessageTarget::Dongle)));
    assert!(!delivers_custom(None));
    assert_eq!(notify_outcome(Some(3)), Ok(3));
    assert_eq!(notify_outcome(None), Err(SplitDriverError::BleError(1)));
}

#[test]
fn a_peripheral_calls_its_central_first() {
    let known = PeerAddress { peer_id: 0, is_valid: true, address: [7; 6] };
    let mut link = PeripheralLink::new(3, true, Some(known));
    assert_eq!(
        link.action(),
        peripheral::LinkAction::AdvertiseDirected { addr: [7; 6], secs: DIRECTED_SECS }
    );
    link.advance(PhaseEnd::Advertised(AdvertiseOutcome::Timeout));
    assert!(matches!(link.action(), peripheral::LinkAction::AdvertiseSeeking { id: 3, .. }));
    link.advance(PhaseEnd::Advertised(AdvertiseOutcome::Timeout));
    assert_eq!(link.action(), peripheral::LinkAction::AdvertiseDfu { secs: DFU_ADVERTISE_SECS });
    assert_eq!(link.address_to_store([7; 6]), None);
    let store = link.address_to_store([8; 6]).unwrap();
    assert!(store.is_valid);
    link.address_stored([8; 6], true);
    assert_eq!(link.central_addr, Some([8; 6]));
    let link = PeripheralLink::new(3, false, Some(PeerAddress { is_valid: false, ..known }));
    assert_eq!(link.phase, LinkPhase::Seeking);
}

#[test]
fn names_are_cut_at_characters() {
    assert_eq!(truncate_name("keyboard", 4), "keyb");
    // A character that does not fit whole is left out.
    assert_eq!(truncate_name("k\u{e9}y", 2), "k");
    assert_eq!(truncate_name("k\u{e9}y", 3), "k\u{e9}");
    assert_eq!(dfu_advertise_name(2, None), "rmk per2");
    let long = "a name that is longer than an advertisement";
    assert_eq!(dfu_advertise_name(2, Some(long)).len(), BLE_ADV_NAME_MAX_LEN);
}
