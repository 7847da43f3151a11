//! The dongle: routers, relay, central and event queue.

use std::collections::VecDeque;

use rmk::ble::conn::Address;
use rmk::ble::profile::{BondInformation, Identity, SecurityLevel};
use rmk::dongle::central::{
    run_connection, secure_connection, watch_connection, CentralEvent, CentralTask, DongleCentral,
    PairingWindow, Peer, ScanHandler, SecureEvent, SecureStep, Sighting, Teardown, WatchStep,
    WindowStep,
};
use rmk::dongle::event::{DongleEvent, DongleEventQueue, PendingEvents, DONGLE_EVENT_QUEUE};
use rmk::dongle::link::{
    link_task, next_link_task, run_link, secure, DonglePeer, LinkEvent, LinkStep, LinkTask,
    SecureError, Serve, ServeEvent, ServeStep, SessionError,
};
use rmk::dongle::relay::{
    connect_params, relay_conn_params, release_held_keys, rynk_chunk_size,
    subscribe_value, CharacteristicInfo, KeyboardCharacteristics, NotificationRoute, REPORT_UUID,
};
use rmk::dongle::router::{must_delimit, next_piece, DongleRouter, QueueOp};
use rmk::dongle::vial_router::{self, ReportRoute, UNHANDLED, VIAL_EP_SIZE};
use rmk::event::action::ActionEvent;
use rmk::protocol::command::Cmd;
use rmk::protocol::deframer::Deframer;
use rmk::protocol::frame::{encode_frame, RynkError, RynkHeader, RYNK_HEADER_SIZE};
use rmk::split::ble::central::Adv;
use rmk::time::{Duration, Instant};
use rmk::types::{
    Action, BatteryStatus, KeyboardEvent, ModifierCombination, MouseReport, Report,
};

fn secs(s: u64) -> Instant {
    Instant::from_ticks(Duration::from_secs(s).ticks)
}

// --- The byte router --------------------------------------------------------

/// Room for the keyboard's bytes.
const TO_KEYBOARD: usize = 2304;

/// A router between two byte queues.
struct Relay {
    router: DongleRouter,
    to_keyboard: Vec<u8>,
    to_host: Vec<u8>,
}

impl Relay {
    fn new() -> Self {
        Relay { router: DongleRouter::new(), to_keyboard: Vec::new(), to_host: Vec::new() }
    }

    fn apply(&mut self, ops: Vec<QueueOp>) {
        for op in ops {
            match op {
                QueueOp::ClearToKeyboard => self.to_keyboard.clear(),
                QueueOp::ClearToHost => self.to_host.clear(),
                QueueOp::DelimitToHost => self.to_host.push(0),
            }
        }
    }

    fn link_up(&mut self) {
        let ops = self.router.link_up();
        self.apply(ops);
    }

    fn link_down(&mut self) {
        let ops = self.router.link_down();
        self.apply(ops);
    }

    /// One reading of what the host sent. `dies` is called where a forward finds no
    /// room.
    fn read(&mut self, data: &[u8], link_dies: bool) {
        let mut from = 0;
        while from < data.len() {
            let end = next_piece(data, from);
            let piece = &data[from..end];
            if self.router.begin_piece(piece) {
                if self.to_keyboard.len() + piece.len() <= TO_KEYBOARD {
                    self.to_keyboard.extend_from_slice(piece);
                } else if link_dies {
                    self.link_down();
                }
            }
            if let Some(reply) = self.router.end_piece(piece) {
                self.to_host.extend_from_slice(&reply);
            }
            from = end;
        }
    }

    /// A session that reads these chunks; what the host gets of it.
    fn run(&mut self, chunks: &[&[u8]]) -> Vec<u8> {
        let ops = self.router.run_session();
        self.apply(ops);
        for chunk in chunks {
            self.read(chunk, false);
        }
        std::mem::take(&mut self.to_host)
    }
}

fn frame(cmd: Cmd, seq: u8) -> Vec<u8> {
    encode_frame(RynkHeader { cmd: cmd.raw(), seq }, &[])
}

/// Decode a reply stream into `(cmd, seq, payload)` frames.
fn decode_frames(bytes: &[u8]) -> Vec<(u16, u8, Vec<u8>)> {
    let mut df = Deframer::new();
    df.commit(bytes);
    let mut out = Vec::new();
    while let Some(m) = df.next() {
        out.push((
            u16::from_le_bytes([m[0], m[1]]),
            m[2],
            m[RYNK_HEADER_SIZE..].to_vec(),
        ));
    }
    out
}

#[test]
fn a_connected_keyboard_gets_the_frame_byte_for_byte() {
    let mut relay = Relay::new();
    relay.router.link_up();
    let request = frame(Cmd::GetVersion, 7);
    let captured = relay.run(&[&request]);

    assert!(captured.is_empty(), "forwarded frames get no local reply");
    assert_eq!(relay.to_keyboard, request, "byte-for-byte pass-through");
}

#[test]
fn router_a_forward_waiting_on_a_dying_link_answers_instead_of_replaying() {
    let mut relay = Relay::new();
    relay.link_up();
    // Fill the pipe so the forward has to wait for room.
    relay.to_keyboard = vec![0xFF; TO_KEYBOARD];

    let request = frame(Cmd::GetVersion, 11);
    // The link drops with the forward still waiting.
    relay.read(&request, true);

    let resp = decode_frames(&relay.to_host);
    assert_eq!(resp.len(), 1, "the host is answered rather than left waiting");
    assert_eq!(resp[0].1, 11, "seq echo");
    assert_eq!(
        postcard::from_bytes::<Result<(), u8>>(&resp[0].2).unwrap(),
        Err(RynkError::NotReady.code()),
    );
    assert!(
        relay.to_keyboard.is_empty(),
        "and the request is not parked for whichever keyboard reconnects next"
    );
}

#[test]
fn a_link_that_dies_mid_frame_does_not_swallow_the_next_response() {
    let mut relay = Relay::new();
    let response = frame(Cmd::GetVersion, 3);
    relay.run(&[]);
    relay.link_up();
    // A response the keyboard only got halfway through notifying.
    relay.to_host.extend_from_slice(&response[..3]);
    relay.link_down();
    relay.link_up();
    relay.to_host.extend_from_slice(&response);

    let resp = decode_frames(&relay.to_host);
    assert_eq!(
        resp.len(),
        1,
        "the truncated frame is dropped, not merged with the next"
    );
    assert_eq!(resp[0].1, 3, "and the next response reaches the host intact");
}

#[test]
fn a_request_split_across_reads_is_answered_once() {
    let mut relay = Relay::new();
    let request = frame(Cmd::GetVersion, 21);
    let (head, tail) = request.split_at(2);
    let captured = relay.run(&[head, tail]);

    let resp = decode_frames(&captured);
    assert_eq!(resp.len(), 1, "one request, one answer");
    assert_eq!(resp[0].1, 21, "seq echo survives the split");
}

#[test]
fn an_absent_keyboard_answers_not_ready_on_the_host_s_header() {
    let mut relay = Relay::new();
    let captured = relay.run(&[&frame(Cmd::GetVersion, 9)]);
    let resp = decode_frames(&captured);

    assert_eq!(resp.len(), 1);
    assert_eq!(resp[0].0, Cmd::GetVersion.raw(), "cmd echo");
    assert_eq!(resp[0].1, 9, "seq echo, so the host can match the reply");
    assert_eq!(
        postcard::from_bytes::<Result<(), u8>>(&resp[0].2).unwrap(),
        Err(RynkError::NotReady.code()),
    );
    assert!(relay.to_keyboard.is_empty(), "and nothing is parked for later");
}

#[test]
fn bare_delimiters_and_headless_frames_get_no_answer() {
    let mut relay = Relay::new();
    assert!(relay.run(&[&[0, 0, 2, 1, 0]]).is_empty());
    // A frame longer than what is kept of it is still answered.
    let long = encode_frame(RynkHeader { cmd: 0x0D01, seq: 4 }, &[7; 100]);
    let resp = decode_frames(&relay.run(&[&long[..50], &long[50..]]));
    assert_eq!((resp[0].0, resp[0].1), (0x0D01, 4));
}

#[test]
fn a_notification_cut_short_is_terminated() {
    assert!(!must_delimit(Some(20), 20));
    assert!(must_delimit(Some(3), 20));
    assert!(must_delimit(None, 20));
}

// --- The report router ------------------------------------------------------

/// A router between two queues of reports.
struct VialRelay {
    router: vial_router::DongleRouter,
    to_keyboard: VecDeque<[u8; VIAL_EP_SIZE]>,
    to_host: VecDeque<[u8; VIAL_EP_SIZE]>,
}

impl VialRelay {
    fn new() -> Self {
        VialRelay {
            router: vial_router::DongleRouter::new(),
            to_keyboard: VecDeque::new(),
            to_host: VecDeque::new(),
        }
    }

    fn apply(&mut self, ops: Vec<QueueOp>) {
        for op in ops {
            match op {
                QueueOp::ClearToKeyboard => self.to_keyboard.clear(),
                QueueOp::ClearToHost => self.to_host.clear(),
                QueueOp::DelimitToHost => panic!("reports have no delimiter"),
            }
        }
    }

    fn forward(&mut self, report: [u8; VIAL_EP_SIZE], link_dies: bool) {
        match self.router.forward_report(report) {
            ReportRoute::Forward => {
                let queued = self.to_keyboard.is_empty();
                if queued {
                    self.to_keyboard.push_back(report);
                } else if link_dies {
                    let ops = self.router.link_down();
                    self.apply(ops);
                }
                if let Some(answer) = self.router.after_forward(report, queued) {
                    self.to_host.push_back(answer);
                }
            }
            ReportRoute::Answer(answer) => self.to_host.push_back(answer),
        }
    }
}

fn request(cmd: u8) -> [u8; VIAL_EP_SIZE] {
    let mut report = [0u8; VIAL_EP_SIZE];
    report[0] = cmd;
    report[1] = 0xAB; // marker: replies must echo the request's tail
    report
}

#[test]
fn a_connected_keyboard_gets_the_report_byte_for_byte() {
    let mut relay = VialRelay::new();
    relay.router.link_up();
    let ops = relay.router.run_session();
    assert_eq!(ops, vec![QueueOp::ClearToHost, QueueOp::ClearToKeyboard]);
    relay.apply(ops);
    let req = request(0x01);
    relay.forward(req, false);

    assert!(relay.to_host.is_empty(), "forwarded requests get no local reply");
    let forwarded = relay.to_keyboard.pop_front().expect("report routed to the keyboard");
    assert_eq!(forwarded, req, "byte-for-byte pass-through");
}

#[test]
fn an_absent_keyboard_answers_the_unhandled_echo() {
    let mut relay = VialRelay::new();
    relay.forward(request(0x01), false);

    assert_eq!(relay.to_host.len(), 1, "exactly one reply");
    let captured = relay.to_host.pop_front().unwrap();
    assert_eq!(captured[0], UNHANDLED);
    assert_eq!(&captured[1..], &request(0x01)[1..], "the request's tail is echoed");
    assert!(relay.to_keyboard.is_empty(), "and nothing is parked for later");
}

#[test]
fn vial_router_a_forward_waiting_on_a_dying_link_answers_instead_of_replaying() {
    let mut relay = VialRelay::new();
    relay.router.link_up();
    // Occupy the single slot so the forward has to wait for room.
    relay.to_keyboard.push_back([0u8; VIAL_EP_SIZE]);

    // The link drops with the forward still waiting.
    relay.forward(request(0x02), true);

    let reply = relay.to_host.pop_front().expect("a reply is queued");
    assert_eq!(reply[0], UNHANDLED);
    assert_eq!(
        &reply[1..],
        &request(0x02)[1..],
        "seqless protocol: the echo is the match"
    );
    assert!(
        relay.to_keyboard.is_empty(),
        "and the request is not parked for whichever keyboard reconnects next"
    );
}

#[test]
fn a_keyboard_reply_reaches_the_host_intact() {
    let mut relay = VialRelay::new();
    // What an earlier session left is not this host's.
    relay.to_host.push_back([0x55; VIAL_EP_SIZE]);
    let ops = relay.router.run_session();
    relay.apply(ops);
    let mut reply = [0u8; VIAL_EP_SIZE];
    reply[0] = 0x01;
    reply[31] = 0xEE;
    let ops = relay.router.link_up();
    relay.apply(ops);
    match chars().route(60, &reply) {
        NotificationRoute::Host => relay.to_host.push_back(reply),
        other => panic!("{:?}", other),
    }
    // The link may drop and come back before the host reads.
    let ops = relay.router.link_down();
    relay.apply(ops);
    let ops = relay.router.link_up();
    relay.apply(ops);
    assert_eq!(relay.to_host.pop_front(), Some(reply), "one whole report per write");
    assert!(relay.to_host.is_empty(), "and nothing else");
}

// --- The relay --------------------------------------------------------------

fn ch(uuid: Option<u16>, handle: u16, cccd: Option<u16>) -> CharacteristicInfo {
    CharacteristicInfo { uuid, handle, cccd_handle: cccd }
}

fn chars() -> KeyboardCharacteristics {
    let hid = vec![
        ch(Some(0x2A4A), 1, None),
        ch(Some(REPORT_UUID), 10, Some(11)),
        ch(Some(REPORT_UUID), 20, None),
        ch(Some(0x2A4B), 2, None),
        ch(Some(REPORT_UUID), 30, Some(31)),
        ch(Some(REPORT_UUID), 40, Some(41)),
        ch(Some(REPORT_UUID), 50, None),
    ];
    KeyboardCharacteristics::discover(&hid, Some(ch(None, 60, Some(61))), Some(ch(None, 70, None))).unwrap()
}

#[test]
fn report_characteristics_are_told_by_their_order() {
    let c = chars();
    assert_eq!(c.keyboard_input.handle, 10);
    assert_eq!(c.keyboard_output.handle, 20);
    assert_eq!(c.mouse.handle, 30);
    assert_eq!(c.media.handle, 40);
    assert_eq!(c.system.handle, 50);
    assert_eq!(c.subscribe(), vec![11, 31, 41, 61]);
    assert_eq!(subscribe_value(), [1, 0]);
    let few = vec![ch(Some(REPORT_UUID), 1, None); 4];
    assert!(KeyboardCharacteristics::discover(&few, Some(few[0]), Some(few[0])).is_none());
    let five = vec![ch(Some(REPORT_UUID), 1, None); 5];
    assert!(KeyboardCharacteristics::discover(&five, None, Some(few[0])).is_none());
}

#[test]
fn notifications_become_the_reports_they_carry() {
    let c = chars();
    match c.report(10, &[2, 0, 4, 5, 6, 7, 8, 9]) {
        Some(Report::KeyboardReport(k)) => {
            assert_eq!(k.modifier, 2);
            assert_eq!(k.keycodes, [4, 5, 6, 7, 8, 9]);
        }
        other => panic!("{:?}", other),
    }
    assert_eq!(
        c.report(30, &[1, 255, 2, 128, 127]),
        Some(Report::MouseReport(MouseReport { buttons: 1, x: -1, y: 2, wheel: -128, pan: 127 }))
    );
    assert!(matches!(c.report(40, &[0xE9, 0x01]), Some(Report::MediaKeyboardReport(m)) if m.usage_id == 0x01E9));
    assert!(matches!(c.report(50, &[0x81]), Some(Report::SystemControlReport(s)) if s.usage_id == 0x81));
    // Too short, or of another handle.
    assert_eq!(c.report(10, &[0; 7]), None);
    assert_eq!(c.report(50, &[]), None);
    assert_eq!(c.report(99, &[0; 8]), None);
    assert_eq!(c.route(60, &[1]), NotificationRoute::Host);
    assert_eq!(c.route_reports_first(60, &[1]), NotificationRoute::Host);
    assert_eq!(c.route(99, &[1]), NotificationRoute::Drop);
    assert!(matches!(c.route_reports_first(50, &[1]), NotificationRoute::Report(_)));
}

#[test]
fn frames_are_written_in_chunks_that_fit() {
    assert_eq!(rynk_chunk_size(0), 1);
    assert_eq!(rynk_chunk_size(23), 20);
    assert_eq!(rynk_chunk_size(517), 244);
}

/// Relays a frame; `writes` says how each write goes. What was written.
fn relay_frame(serve: &mut Serve, frame: Vec<u8>, writes: &[bool]) -> Vec<Vec<u8>> {
    let mut written = Vec::new();
    let mut step = serve.serve(ServeEvent::Frame(frame));
    let mut writes = writes.iter();
    while let ServeStep::WritePart(part) = step {
        assert!(!serve.takes_output());
        let ok = *writes.next().unwrap();
        if ok {
            written.push(part);
        }
        step = serve.serve(ServeEvent::PartWritten(ok));
    }
    assert!(matches!(step, ServeStep::Wait));
    assert!(serve.takes_output());
    written
}

#[test]
fn a_link_relays_both_ways_until_it_ends() {
    let mut serve = Serve::new(chars(), 20);
    let frame: Vec<u8> = (0..50).collect();
    let parts = relay_frame(&mut serve, frame.clone(), &[true; 3]);
    assert_eq!(parts.iter().map(|p| p.len()).collect::<Vec<_>>(), vec![20, 20, 10]);
    assert_eq!(parts.concat(), frame);
    // What follows a lost part is not written.
    assert_eq!(relay_frame(&mut serve, frame, &[true, false]).len(), 1);
    assert!(relay_frame(&mut serve, vec![], &[]).is_empty());
    let mut on = |event| serve.serve(event);
    assert!(matches!(on(ServeEvent::Leds(2)), ServeStep::WriteLeds(2)));
    assert!(matches!(
        on(ServeEvent::Notification { handle: 60, data: vec![1] }),
        ServeStep::ForwardToHost
    ));
    assert!(matches!(
        on(ServeEvent::Notification { handle: 50, data: vec![1] }),
        ServeStep::SendReport(_)
    ));
    assert!(matches!(
        on(ServeEvent::Notification { handle: 99, data: vec![1] }),
        ServeStep::Wait
    ));
    assert!(matches!(
        on(ServeEvent::Connection(SecureEvent::ParamsRequested)),
        ServeStep::AcceptParams
    ));
    assert!(matches!(on(ServeEvent::BondPoll { dropped: false }), ServeStep::Wait));
    assert!(matches!(on(ServeEvent::BondPoll { dropped: true }), ServeStep::DisconnectAndEnd));
    assert!(matches!(
        on(ServeEvent::Connection(SecureEvent::Disconnected { key_refused: false })),
        ServeStep::End
    ));
}

#[test]
fn a_relaying_link_may_skip_and_a_securing_one_may_not() {
    assert_eq!(relay_conn_params().max_latency, 30);
    assert_eq!(relay_conn_params().supervision_timeout_us, 10_000_000);
    assert_eq!(connect_params().max_latency, 0);
    assert_eq!(connect_params().min_interval_us, 7_500);
}

#[test]
fn nothing_stays_held_down() {
    let reports = release_held_keys();
    assert_eq!(reports.len(), 4);
    assert!(matches!(reports[0], Report::KeyboardReport(k) if k.modifier == 0 && k.keycodes == [0; 6]));
    assert!(matches!(reports[3], Report::SystemControlReport(s) if s.usage_id == 0));
}

// --- The central ------------------------------------------------------------

fn addr(last: u8) -> Address {
    Address::random([0, 0, 0, 0, 0, last])
}

#[test]
fn advertisements_are_sighted() {
    let mut handler = ScanHandler::new();
    assert!(matches!(handler.on_adv_report(Adv::Other, addr(1), -40), Sighting::Unrelated));
    handler.bonded_addr = Some(addr(1).addr);
    assert!(matches!(handler.on_adv_report(Adv::Other, addr(1), -40), Sighting::Bonded));
    assert!(matches!(
        handler.on_adv_report(Adv::DongleSeeking, addr(1), -40),
        Sighting::Seeking { rssi: -40, .. }
    ));
    assert!(matches!(handler.on_adv_report(Adv::SplitPeripheral { id: 0 }, addr(2), 0), Sighting::Unrelated));
}

#[test]
fn a_pairing_window_picks_the_strongest_keyboard() {
    let mut window = PairingWindow::open(secs(0), 60);
    assert!(matches!(window.run_pairing_window(false, secs(1)), WindowStep::WaitUntil(t) if t == secs(60)));
    window.sighted(addr(1), -70, secs(5));
    window.sighted(addr(2), -50, secs(6));
    window.sighted(addr(3), -50, secs(6));
    window.sighted(addr(4), -80, secs(6));
    assert!(matches!(window.run_pairing_window(false, secs(6)), WindowStep::WaitUntil(t) if t == secs(7)));
    match window.run_pairing_window(true, secs(7)) {
        WindowStep::Closed(Some(a)) => assert_eq!(a.addr, addr(2).addr),
        other => panic!("{:?}", other),
    }
}

#[test]
fn a_pairing_window_closes_for_the_bonded_keyboard_or_in_time() {
    let mut window = PairingWindow::open(secs(0), 60);
    assert!(matches!(window.run_pairing_window(true, secs(1)), WindowStep::Closed(None)));
    assert!(matches!(window.run_pairing_window(false, secs(60)), WindowStep::Closed(None)));
    // A sighting in the last two seconds comes too late.
    window.sighted(addr(1), -30, secs(59));
    assert!(matches!(window.run_pairing_window(false, secs(59)), WindowStep::WaitUntil(t) if t == secs(60)));
    assert!(matches!(window.run_pairing_window(false, secs(60)), WindowStep::Closed(None)));
}

#[test]
fn securing_drops_a_bond_only_when_its_key_is_refused() {
    let failed = |drop_bond| SecureStep::Failed { drop_bond };
    assert_eq!(
        secure_connection(Peer::New, SecureEvent::PairingComplete { bonded: true }),
        SecureStep::Secured { store: true }
    );
    assert_eq!(secure_connection(Peer::Bonded, SecureEvent::Encrypted), SecureStep::Secured { store: false });
    assert_eq!(secure_connection(Peer::Bonded, SecureEvent::PairingFailed), failed(true));
    assert_eq!(secure_connection(Peer::New, SecureEvent::PairingFailed), failed(false));
    let refused = SecureEvent::Disconnected { key_refused: true };
    assert_eq!(secure_connection(Peer::Bonded, refused), failed(true));
    assert_eq!(secure_connection(Peer::New, refused), failed(false));
    let dropped = SecureEvent::Disconnected { key_refused: false };
    assert_eq!(secure_connection(Peer::Bonded, dropped), failed(false));
    assert_eq!(secure_connection(Peer::Bonded, SecureEvent::TimedOut), failed(false));
    assert_eq!(secure_connection(Peer::New, SecureEvent::ParamsRequested), SecureStep::AcceptParams);
    assert_eq!(secure_connection(Peer::New, SecureEvent::Other), SecureStep::Wait);
    assert_eq!(watch_connection(dropped), WatchStep::End);
    assert_eq!(watch_connection(SecureEvent::ParamsRequested), WatchStep::AcceptParams);
    assert_eq!(watch_connection(SecureEvent::Encrypted), WatchStep::Ignore);
}

#[test]
fn a_connection_is_left_clean() {
    assert_eq!(
        run_connection(true, true),
        vec![Teardown::LinkDown, Teardown::ReleaseHeldKeys, Teardown::Disconnect]
    );
    assert_eq!(run_connection(false, true), vec![Teardown::Disconnect]);
    assert_eq!(run_connection(true, false), vec![Teardown::Disconnect]);
}

#[test]
fn a_bonded_dongle_offers_a_window_once() {
    let mut central = DongleCentral::new(Some(addr(1)));
    assert!(matches!(central.task, CentralTask::PairingWindow { power_on: true }));
    central.run(CentralEvent::WindowClosed(None), Some(addr(1)));
    assert!(matches!(central.task, CentralTask::Connect { peer: Peer::Bonded, .. }));
    central.run(CentralEvent::ConnectDone { connected: false }, Some(addr(1)));
    assert!(matches!(central.task, CentralTask::Pause));
    central.run(CentralEvent::Done, Some(addr(1)));
    assert!(matches!(central.task, CentralTask::Connect { peer: Peer::Bonded, .. }));
    central.run(CentralEvent::ConnectDone { connected: true }, Some(addr(1)));
    assert!(matches!(central.task, CentralTask::RunConnection { peer: Peer::Bonded, .. }));
    // The bond was dropped while securing.
    central.run(CentralEvent::Done, None);
    assert!(matches!(central.task, CentralTask::Pause));
    central.run(CentralEvent::Done, None);
    assert!(matches!(central.task, CentralTask::PairingWindow { power_on: false }));
    central.run(CentralEvent::WindowClosed(Some(addr(9))), None);
    assert!(matches!(central.task, CentralTask::Connect { address, peer: Peer::New, .. } if address.addr[5] == 9));
}

#[test]
fn a_replacement_at_power_on_is_served_without_a_pause() {
    let mut central = DongleCentral::new(Some(addr(1)));
    central.run(CentralEvent::WindowClosed(Some(addr(2))), Some(addr(1)));
    central.run(CentralEvent::ConnectDone { connected: true }, Some(addr(1)));
    assert!(matches!(central.task, CentralTask::RunConnection { peer: Peer::New, .. }));
    central.run(CentralEvent::Done, Some(addr(2)));
    assert!(matches!(central.task, CentralTask::Connect { address, .. } if address.addr[5] == 2));
    assert!(matches!(DongleCentral::new(None).task, CentralTask::PairingWindow { power_on: false }));
}

// --- The link ---------------------------------------------------------------

fn bond(last: u8) -> BondInformation {
    BondInformation {
        ltk: last as u128,
        identity: Identity { addr: addr(last), irk: None },
        is_bonded: true,
        security_level: SecurityLevel::Encrypted,
    }
}

#[test]
fn a_link_that_is_not_answered_opens_a_window() {
    let task = link_task(Some(addr(1)));
    assert!(matches!(task, LinkTask::Connect { pairing: false, .. }));
    let task = next_link_task(task, LinkEvent::ConnectDone { connected: false }, Some(addr(1)));
    assert!(matches!(task, LinkTask::PairingWindow));
    let task = next_link_task(task, LinkEvent::WindowClosed(Some(addr(2))), Some(addr(1)));
    assert!(matches!(task, LinkTask::Connect { pairing: true, .. }));
    let task = next_link_task(task, LinkEvent::ConnectDone { connected: true }, Some(addr(1)));
    assert!(matches!(task, LinkTask::Run { pairing: true }));
    let task = next_link_task(task, LinkEvent::Done, Some(addr(2)));
    assert!(matches!(task, LinkTask::Pause));
    assert!(matches!(next_link_task(task, LinkEvent::Done, None), LinkTask::PairingWindow));
    assert!(matches!(link_task(None), LinkTask::PairingWindow));
}

#[test]
fn a_rejected_key_forgets_the_bond() {
    assert_eq!(secure(false, SecureEvent::PairingFailed), Some(Err(SecureError::KeyRejected)));
    assert_eq!(secure(true, SecureEvent::PairingFailed), Some(Err(SecureError::Failed)));
    assert_eq!(secure(true, SecureEvent::Encrypted), Some(Ok(())));
    assert_eq!(
        secure(true, SecureEvent::Disconnected { key_refused: true }),
        Some(Err(SecureError::Disconnected))
    );
    assert_eq!(secure(false, SecureEvent::TimedOut), Some(Err(SecureError::Failed)));
    assert_eq!(secure(false, SecureEvent::Other), None);
    assert_eq!(
        run_link(Err(SecureError::KeyRejected), true),
        vec![LinkStep::ForgetBond, LinkStep::Disconnect]
    );
    assert_eq!(run_link(Err(SecureError::Failed), true), vec![LinkStep::Disconnect]);
    assert_eq!(run_link(Ok(()), false), vec![LinkStep::Disconnect]);
    assert_eq!(run_link(Ok(()), true)[0], LinkStep::Serve);
    assert_eq!(run_link(Ok(()), true).len(), 5);

    let mut peer = DonglePeer::new();
    assert!(peer.forget_bond().is_none());
    peer.bond = Some(bond(4));
    peer.connected = true;
    assert_eq!(peer.forget_bond().unwrap().addr.addr, addr(4).addr);
    assert!(peer.bond_dropped() && !peer.connected);
}

#[test]
fn a_pairing_commits_its_bond_before_relaying() {
    let mut peer = DonglePeer::new();
    peer.bond = Some(bond(1));
    let stack = vec![bond(1), bond(2)];
    let me = bond(2).identity;
    assert!(matches!(
        peer.connected_session(false, true, true, me, &stack),
        Err(SessionError::Discovery)
    ));
    assert!(matches!(
        peer.connected_session(true, true, true, bond(3).identity, &stack),
        Err(SessionError::Handshake)
    ));
    assert!(!peer.connected);
    let commit = peer.connected_session(true, true, true, me, &stack).unwrap().unwrap();
    assert_eq!(commit.removed.unwrap().addr.addr, addr(1).addr);
    assert_eq!(commit.store.info.ltk, 2);
    assert_eq!(commit.store.slot_num, 0);
    assert!(peer.connected);
    // The same keyboard again replaces nothing.
    let commit = peer.connected_session(true, true, true, me, &stack).unwrap().unwrap();
    assert!(commit.removed.is_none());
    assert!(peer.connected_session(true, true, false, me, &stack).unwrap().is_none());
}

// --- Events to the dongle ---------------------------------------------------

#[test]
fn sources_are_served_in_order() {
    let action = ActionEvent::new(Action::No, KeyboardEvent::key(0, 0, true));
    let mut pending = PendingEvents {
        action: Some(action),
        modifier: Some(ModifierCombination(1)),
        layer: Some(2),
        wpm: Some(90),
        sleep: Some(true),
        battery: Some(BatteryStatus::Unavailable),
        peripheral_battery: Some((300, BatteryStatus::Unavailable)),
    };
    let mut order = Vec::new();
    while let Some(event) = pending.next_event() {
        order.push(event);
    }
    assert_eq!(
        order,
        vec![
            DongleEvent::Action(action),
            DongleEvent::Modifier(ModifierCombination(1)),
            DongleEvent::Layer(2),
            DongleEvent::Wpm(90),
            DongleEvent::Sleep(true),
            DongleEvent::Battery(BatteryStatus::Unavailable),
            DongleEvent::PeripheralBattery { id: 300, status: BatteryStatus::Unavailable },
        ]
    );
}

#[test]
fn a_full_event_queue_keeps_the_first_events() {
    let mut queue = DongleEventQueue::new();
    assert_eq!(queue.next_event(), None);
    for n in 0..DONGLE_EVENT_QUEUE as u8 + 3 {
        queue.queue_event(DongleEvent::Layer(n));
    }
    for n in 0..DONGLE_EVENT_QUEUE as u8 {
        assert_eq!(queue.next_event(), Some(DongleEvent::Layer(n)));
    }
    assert_eq!(queue.next_event(), None);
}
