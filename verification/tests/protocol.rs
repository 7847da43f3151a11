//! Payloads, frames and commands of the host protocol.

use rmk::event::action::ActionEvent;
use rmk::protocol::action::{decode_action, encode_action, ACTION_EVENT_MAX_SIZE, ACTION_MAX_SIZE};
use rmk::protocol::command::Cmd;
use rmk::protocol::deframer::{Deframer, RYNK_BUFFER_SIZE};
use rmk::protocol::dfu::{
    DfuCrcRewindRequest, DfuCrcSyncRequest, DfuData, DfuVerifyRequest, DfuWriteRequest,
    DFU_CRC_REWIND_MAX_SIZE, DFU_CRC_SYNC_MAX_SIZE, DFU_DATA_MAX, DFU_VERIFY_MAX_SIZE,
    DFU_WRITE_MAX_SIZE, RYNK_MAX_PAYLOAD_SIZE,
};
use rmk::protocol::frame::{
    cobs_decode, cobs_decode_start, cobs_encode, encode_frame, encode_result, RynkError, RynkHeader,
};
use rmk::protocol::morse::{
    BulkMorses, GetMorseBulkRequest, GetMorseBulkResponse, Morse, MorseHoldTriggerPosition,
    MorseHoldTriggerPositionState, MorseHoldTriggerPositions, MorsePattern, MorseProfile, SetMorseBulkRequest,
    SetMorseHoldTriggerPositionsRequest, SetMorseRequest, HOLD_TRIGGER_KEY_POSITION_MAX_NUM,
    MAX_BULK_ITEMS, MORSE_BULK_RESPONSE_MAX_SIZE, MORSE_MAX_SIZE, MORSE_SIZE, POSITIONS_MAX_SIZE,
    POSITION_STATE_MAX_SIZE, SET_MORSE_BULK_MAX_SIZE, SET_MORSE_MAX_SIZE,
};
use rmk::types::{
    Action, HidKeyCode, KeyCode, KeyboardAction, KeyboardEvent, KeyboardEventPos,
    ModifierCombination,
};

// --- DFU requests -----------------------------------------------------------

#[test]
fn round_trip_dfu_write_request() {
    let req = DfuWriteRequest {
        offset: 0x1000,
        data: DfuData::from_slice(&[1, 2, 3, 4]).unwrap(),
    };
    assert_eq!(DfuWriteRequest::decode(&req.encode()), Some(req));
}

#[test]
fn round_trip_dfu_crc_sync_request() {
    let req = DfuCrcSyncRequest {
        expected_crc: 0xDEADBEEF,
    };
    assert_eq!(DfuCrcSyncRequest::decode(&req.encode()), Some(req));
}

#[test]
fn round_trip_dfu_crc_rewind_request() {
    let req = DfuCrcRewindRequest {
        offset: 0x2000,
        crc: 0x12345678,
    };
    assert_eq!(DfuCrcRewindRequest::decode(&req.encode()), Some(req));
}

#[test]
fn round_trip_dfu_verify_request() {
    let req = DfuVerifyRequest { crc32: 0xABCD1234 };
    assert_eq!(DfuVerifyRequest::decode(&req.encode()), Some(req));
}

#[test]
fn max_size_bounds() {
    assert!(DfuCrcSyncRequest { expected_crc: 0 }.encode().len() <= DFU_CRC_SYNC_MAX_SIZE);
    assert!(DfuCrcRewindRequest { offset: 0, crc: 0 }.encode().len() <= DFU_CRC_REWIND_MAX_SIZE);
    assert!(DfuVerifyRequest { crc32: 0 }.encode().len() <= DFU_VERIFY_MAX_SIZE);
    let top = DfuCrcRewindRequest { offset: u32::MAX, crc: u32::MAX };
    assert_eq!(top.encode().len(), DFU_CRC_REWIND_MAX_SIZE);
}

#[test]
fn dfu_data_max_fits_payload() {
    assert!(
        DFU_WRITE_MAX_SIZE <= RYNK_MAX_PAYLOAD_SIZE,
        "DfuWriteRequest ({} bytes) exceeds RYNK_MAX_PAYLOAD_SIZE ({} bytes)",
        DFU_WRITE_MAX_SIZE,
        RYNK_MAX_PAYLOAD_SIZE,
    );
    let full = DfuWriteRequest {
        offset: u32::MAX,
        data: DfuData::from_slice(&[0xA5; DFU_DATA_MAX]).unwrap(),
    };
    let bytes = full.encode();
    assert_eq!(bytes.len(), DFU_WRITE_MAX_SIZE);
    assert_eq!(DfuWriteRequest::decode(&bytes), Some(full));
}

#[test]
fn numbers_are_varints_on_the_wire() {
    assert_eq!(DfuVerifyRequest { crc32: 300 }.encode(), vec![0xAC, 0x02]);
    let write = DfuWriteRequest { offset: 128, data: DfuData::from_slice(&[9, 8]).unwrap() };
    assert_eq!(write.encode(), vec![0x80, 0x01, 0x02, 9, 8]);
}

#[test]
fn short_or_long_payloads_are_no_requests() {
    assert_eq!(DfuVerifyRequest::decode(&[]), None);
    assert_eq!(DfuVerifyRequest::decode(&[0x80]), None);
    assert_eq!(DfuVerifyRequest::decode(&[0xFF, 0xFF, 0xFF, 0xFF, 0x1F]), None);
    assert_eq!(DfuCrcRewindRequest::decode(&[1]), None);
    assert_eq!(DfuWriteRequest::decode(&[0, 3, 1, 2]), None);
}

// --- Morse requests ---------------------------------------------------------

fn full_morse() -> Morse {
    let action = Action::KeyWithModifier(HidKeyCode(4), ModifierCombination(0));
    let mut m = Morse::new(MorseProfile(0));
    for i in 0..MORSE_SIZE {
        m.insert(MorsePattern((i + 1) as u16), action).unwrap();
    }
    m
}

fn full_positions() -> MorseHoldTriggerPositions {
    let mut positions = MorseHoldTriggerPositions::new();
    for index in 0..HOLD_TRIGGER_KEY_POSITION_MAX_NUM {
        let position = MorseHoldTriggerPosition {
            profile: if index == 0 { u8::MAX } else { (index - 1) as u8 },
            row: (index % 6) as u8,
            col: (index % 14) as u8,
        };
        positions.push(position).unwrap();
    }
    positions
}

#[test]
fn round_trip_morse() {
    let m = Morse::new(MorseProfile(0));
    assert_eq!(Morse::decode(&m.encode()), Some(m));
}

#[test]
fn round_trip_set_morse_request() {
    let mut config = Morse::new(MorseProfile(0));
    config.insert(MorsePattern(0b101), Action::No).unwrap();
    let req = SetMorseRequest { index: 0, config };
    let bytes = req.encode();
    assert!(bytes.len() <= SET_MORSE_MAX_SIZE);
    assert_eq!(bytes, vec![0, 0, 1, 0b101, 0]);
    assert_eq!(SetMorseRequest::decode(&bytes), Some(req));
}

#[test]
fn round_trip_morse_max_capacity() {
    let m = full_morse();
    assert_eq!(m.actions.entries().len(), MORSE_SIZE);
    let bytes = m.encode();
    assert!(bytes.len() <= MORSE_MAX_SIZE);
    assert_eq!(Morse::decode(&bytes), Some(m));
}

#[test]
fn round_trip_set_morse_bulk_request_max_capacity() {
    let mut configs = BulkMorses::new();
    for _ in 0..MAX_BULK_ITEMS {
        configs.push(full_morse()).unwrap();
    }
    let req = SetMorseBulkRequest {
        start_index: u8::MAX,
        configs,
    };
    let bytes = req.encode();
    assert!(bytes.len() <= SET_MORSE_BULK_MAX_SIZE);
    assert!(bytes.len() <= RYNK_MAX_PAYLOAD_SIZE);
    assert_eq!(SetMorseBulkRequest::decode(&bytes), Some(req));
}

#[test]
fn round_trip_get_morse_bulk_response_max_capacity() {
    let mut configs = BulkMorses::new();
    for _ in 0..MAX_BULK_ITEMS {
        configs.push(full_morse()).unwrap();
    }
    let resp = GetMorseBulkResponse { configs };
    let bytes = resp.encode();
    assert!(bytes.len() <= MORSE_BULK_RESPONSE_MAX_SIZE);
    assert_eq!(GetMorseBulkResponse::decode(&bytes), Some(resp));
}

#[test]
fn round_trip_hold_trigger_position_state_max_capacity() {
    let state = MorseHoldTriggerPositionState {
        capacity: HOLD_TRIGGER_KEY_POSITION_MAX_NUM as u8,
        positions: full_positions(),
    };
    let bytes = state.encode();
    assert!(bytes.len() <= POSITION_STATE_MAX_SIZE);
    assert_eq!(MorseHoldTriggerPositionState::decode(&bytes), Some(state));
}

#[test]
fn round_trip_set_hold_trigger_positions_max_capacity() {
    let request = SetMorseHoldTriggerPositionsRequest {
        positions: full_positions(),
    };
    let bytes = request.encode();
    assert!(bytes.len() <= POSITIONS_MAX_SIZE);
    assert_eq!(SetMorseHoldTriggerPositionsRequest::decode(&bytes), Some(request));
}

#[test]
fn more_than_fits_is_refused() {
    let mut m = full_morse();
    // A pattern that is there already takes the new action; a new one finds no room.
    assert_eq!(m.insert(MorsePattern(1), Action::No), Ok(()));
    assert_eq!(m.actions.entries()[0], (1, Action::No));
    assert_eq!(m.insert(MorsePattern(99), Action::No), Err(()));
    assert_eq!(m.actions.entries().len(), MORSE_SIZE);

    // Nine patterns on the wire.
    let mut bytes = vec![0, 9];
    for i in 0..9 {
        bytes.push(i + 1);
        bytes.push(0);
    }
    assert_eq!(Morse::decode(&bytes), None);
    // Nine morse keys in one transfer.
    let mut page = vec![9];
    for _ in 0..9 {
        page.extend_from_slice(&[0, 0]);
    }
    assert_eq!(GetMorseBulkResponse::decode(&page), None);
    let mut page = BulkMorses::new();
    for _ in 0..MAX_BULK_ITEMS {
        assert_eq!(page.push(full_morse()), Ok(()));
    }
    assert_eq!(page.push(full_morse()), Err(()));
    assert_eq!(page.as_slice().len(), MAX_BULK_ITEMS);
    // Too many positions.
    let mut positions = full_positions();
    let last = positions.as_slice()[31];
    assert_eq!(positions.push(last), Err(()));
    assert_eq!(positions, full_positions());
    assert_eq!(DfuData::from_slice(&[0; DFU_DATA_MAX + 1]), Err(()));
    let mut table = vec![33];
    table.extend_from_slice(&[0; 99]);
    assert_eq!(SetMorseHoldTriggerPositionsRequest::decode(&table), None);
}

#[test]
fn bulk_read_asks_by_slot() {
    let req = GetMorseBulkRequest { start_index: 7 };
    assert_eq!(req.encode(), vec![7]);
    assert_eq!(GetMorseBulkRequest::decode(&[7, 1]), Some(req));
    assert_eq!(GetMorseBulkRequest::decode(&[]), None);
}

// --- Actions and events -----------------------------------------------------

#[test]
fn every_action_reads_back() {
    let m = ModifierCombination(0b10);
    let actions = [
        Action::No,
        Action::Key(KeyCode::Hid(HidKeyCode(4))),
        Action::Key(KeyCode::Consumer(0xE9)),
        Action::Key(KeyCode::Consumer(u16::MAX)),
        Action::Key(KeyCode::SystemControl(0x81)),
        Action::Modifier(m),
        Action::KeyWithModifier(HidKeyCode(43), m),
        Action::LayerOn(1),
        Action::LayerOnWithModifier(2, m),
        Action::LayerToggle(3),
        Action::LayerToggleOnly(4),
        Action::DefaultLayer(5),
        Action::PersistentDefaultLayer(6),
        Action::TriggerMacro(7),
        Action::OneShotModifier(m),
        Action::OneShotLayer(8),
        Action::KeyboardControl(KeyboardAction::Bootloader),
        Action::KeyboardControl(KeyboardAction::Reboot),
        Action::KeyboardControl(KeyboardAction::ClearEeprom),
        Action::KeyboardControl(KeyboardAction::ComboOn),
        Action::KeyboardControl(KeyboardAction::ComboOff),
        Action::KeyboardControl(KeyboardAction::ComboToggle),
        Action::KeyboardControl(KeyboardAction::CapsWordToggle),
        Action::Light(9),
        Action::Special(10),
        Action::Steno(11),
        Action::User(12),
    ];
    for action in actions {
        let mut bytes = Vec::new();
        encode_action(&mut bytes, action);
        assert!(bytes.len() <= ACTION_MAX_SIZE);
        bytes.push(0x77);
        let (back, rest) = decode_action(&bytes).unwrap();
        assert_eq!(back, action);
        assert_eq!(rest, &[0x77]);
    }
    assert!(decode_action(&[]).is_none());
    assert!(decode_action(&[18, 0]).is_none());
    assert!(decode_action(&[13, 7]).is_none());
    assert!(decode_action(&[1, 1, 0xFF, 0xFF, 0x07]).is_none());
}

#[test]
fn numbers_may_be_longer_than_they_need_to_be() {
    assert_eq!(decode_action(&[0x84, 0x00, 5, 9]), Some((Action::LayerOn(5), &[9][..])));
    let key = Action::Key(KeyCode::SystemControl(7));
    assert_eq!(decode_action(&[0x81, 0x80, 0x00, 0x82, 0x00, 7]), Some((key, &[][..])));
    let reboot = Action::KeyboardControl(KeyboardAction::Reboot);
    assert_eq!(decode_action(&[13, 0x81, 0x00]), Some((reboot, &[][..])));
    // Beyond 32 bits there is no number.
    assert_eq!(decode_action(&[0x84, 0x80, 0x80, 0x80, 0x80, 0x00, 5]), None);
    let event = ActionEvent::decode(&[0x80, 0x00, 0x80, 0x00, 1, 2, 1]).unwrap();
    assert_eq!(event, ActionEvent::new(Action::No, KeyboardEvent::key(1, 2, true)));
    assert_eq!(ActionEvent::decode(&[0, 0, 1, 2, 2]), None);
    assert_eq!(ActionEvent::decode(&[0, 2, 1, 2, 1]), None);
}

#[test]
fn short_numbers_take_three_bytes_at_most() {
    let consumer = |usage| Some((Action::Key(KeyCode::Consumer(usage)), &[][..]));
    assert_eq!(decode_action(&[1, 1, 0x80, 0x80, 0x00]), consumer(0));
    assert_eq!(decode_action(&[1, 1, 0xFF, 0xFF, 0x03]), consumer(u16::MAX));
    assert_eq!(decode_action(&[1, 1, 0xFF, 0xFF, 0x04]), None);
    assert_eq!(decode_action(&[1, 1, 0x80, 0x80, 0x80, 0x00]), None);
    // A pattern is such a number.
    let mut m = Morse::new(MorseProfile(0));
    m.insert(MorsePattern(5), Action::No).unwrap();
    assert_eq!(Morse::decode(&[0, 1, 0x85, 0x80, 0x00, 0]), Some(m));
    assert_eq!(Morse::decode(&[0, 1, 0x85, 0x80, 0x80, 0x00, 0]), None);
}

#[test]
fn counts_are_as_wide_as_sizes() {
    let wide = usize::BITS > 32;
    let empty = DfuWriteRequest { offset: 0, data: DfuData::from_slice(&[]).unwrap() };
    assert_eq!(DfuWriteRequest::decode(&[0, 0x80, 0x80, 0x80, 0x80, 0x00]).as_ref(), Some(&empty));
    let six = [0, 0x80, 0x80, 0x80, 0x80, 0x80, 0x00];
    assert_eq!(DfuWriteRequest::decode(&six), if wide { Some(empty) } else { None });
    assert_eq!(Morse::decode(&six).is_some(), wide);
    assert_eq!(GetMorseBulkResponse::decode(&six[1..]).is_some(), wide);
    assert_eq!(SetMorseHoldTriggerPositionsRequest::decode(&six[1..]).is_some(), wide);
    let eleven = [0x80, 0x80, 0x80, 0x80, 0x80, 0x80, 0x80, 0x80, 0x80, 0x80, 0x00];
    assert_eq!(GetMorseBulkResponse::decode(&eleven), None);
}

#[test]
fn sticky_flag_does_not_change_dongle_encoding() {
    let keyboard_event = KeyboardEvent::key(1, 2, true);
    let action = Action::Key(KeyCode::Hid(HidKeyCode(4)));
    let direct = ActionEvent::new(action, keyboard_event);
    let sticky = ActionEvent::new_sticky(action, keyboard_event);

    let direct_bytes = direct.encode();
    let sticky_bytes = sticky.encode();

    assert_eq!(direct_bytes, sticky_bytes);
    assert!(sticky_bytes.len() <= ACTION_EVENT_MAX_SIZE);
    let decoded = ActionEvent::decode(&sticky_bytes).unwrap();
    assert_eq!(decoded.action, action);
    assert_eq!(decoded.keyboard_event, keyboard_event);
    assert!(!decoded.is_sticky);
}

#[test]
fn encoder_events_read_back() {
    let event = ActionEvent::new(
        Action::No,
        KeyboardEvent {
            pos: KeyboardEventPos::RotaryEncoder { id: 3, clockwise: true },
            pressed: false,
        },
    );
    assert_eq!(event.encode(), vec![0, 1, 3, 1, 0]);
    assert_eq!(ActionEvent::decode(&[0, 1, 3, 1, 0]), Some(event));
    assert_eq!(ActionEvent::decode(&[0, 1, 3, 2, 0]), None);
    assert_eq!(ActionEvent::decode(&[0, 2, 3, 1, 0]), None);
    assert_eq!(ActionEvent::decode(&[0, 1, 3]), None);
}

// --- Frames -----------------------------------------------------------------

#[test]
fn cobs_leaves_no_zero_and_reads_back() {
    assert_eq!(cobs_encode(&[]), vec![1]);
    assert_eq!(cobs_encode(&[0]), vec![1, 1]);
    assert_eq!(cobs_encode(&[1, 0, 2]), vec![2, 1, 2, 2]);
    let long: Vec<u8> = (0..600).map(|i| (i % 251) as u8).collect();
    let coded = cobs_encode(&long);
    assert!(coded.iter().all(|b| *b != 0));
    assert_eq!(cobs_decode(&coded), Some(long.clone()));
    assert_eq!(cobs_decode(&[5, 1]), None);
    let start = cobs_decode_start(&coded[..8]);
    assert_eq!(&start[..3], &long[..3]);
}

#[test]
fn a_frame_is_delimited_and_parsed_back() {
    let header = RynkHeader { cmd: Cmd::GetVersion.raw(), seq: 7 };
    let frame = encode_frame(header, &[0, 1, 0]);
    assert_eq!(*frame.last().unwrap(), 0);
    assert_eq!(frame.iter().filter(|b| **b == 0).count(), 1);

    let mut df = Deframer::new();
    assert_eq!(df.commit(&frame), frame.len());
    let message = df.next().unwrap();
    assert_eq!(RynkHeader::parse(&message), Some(header));
    assert_eq!(&message[3..], &[0, 1, 0]);
    assert_eq!(df.next(), None);
    assert_eq!(RynkHeader::parse(&[1, 2]), None);
}

#[test]
fn a_broken_frame_costs_only_itself() {
    let header = RynkHeader { cmd: 5, seq: 9 };
    let good = encode_frame(header, &[1]);
    let mut stream = vec![9, 1, 0];
    stream.extend_from_slice(&good);
    let mut df = Deframer::new();
    df.commit(&stream);
    let message = df.next().unwrap();
    assert_eq!(RynkHeader::parse(&message), Some(header));
}

#[test]
fn a_full_buffer_without_a_frame_is_emptied() {
    let mut df = Deframer::new();
    assert_eq!(df.commit(&vec![1; RYNK_BUFFER_SIZE]), RYNK_BUFFER_SIZE);
    assert_eq!(df.next(), None);
    let frame = encode_frame(RynkHeader { cmd: 1, seq: 1 }, &[]);
    assert_eq!(df.commit(&frame), frame.len());
    assert!(df.next().is_some());
}

#[test]
fn results_carry_the_error_number() {
    assert_eq!(encode_result(Ok(())), vec![0]);
    assert_eq!(encode_result(Err(RynkError::UnknownCmd)), vec![1, 0]);
    assert_eq!(encode_result(Err(RynkError::Internal)), vec![1, 1]);
    assert_eq!(encode_result(Err(RynkError::NotReady)), vec![1, 2]);
    let decoded: Result<(), u8> = postcard::from_bytes(&encode_result(Err(RynkError::NotReady))).unwrap();
    assert_eq!(decoded, Err(RynkError::NotReady.code()));
}

#[test]
fn commands_and_numbers_go_together() {
    for raw in [1u16, 2, 3, 0x0D00, 0x0D01, 0x0D02, 0x0D03, 0x0D04, 0x0D05, 0x0D06, 0x1234] {
        assert_eq!(Cmd::from_raw(raw).raw(), raw);
    }
    assert_eq!(Cmd::from_raw(0x0D01), Cmd::DfuWrite);
    assert_eq!(Cmd::from_raw(0x4000), Cmd::Other(0x4000));
}
