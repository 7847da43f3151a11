//! Firmware updates: flash, lock, registry and the host's commands.

use rmk::bounded::{DfuBlock, NotifyQueue, BLOCK_SIZE_DFU, NOTIFY_QUEUE_SIZE, NOTIFY_SIZE};
use rmk::crc32::{crc32, Crc32};
use rmk::dfu::flash::{
    check_sanity, handle_cmd, ChunkPlan, DfuSession, FinishStep, FlashDfuHandler, FlashOp,
    HandlerTask,
};
use rmk::dfu::lock::{
    dfu_lock_check, DfuLock, DfuRefusal, LockPhase, MatrixState, STALL_SECS, UNLOCK_WINDOW_SECS,
};
use rmk::dfu::registry::{get_firmware_update_data, set_firmware_update_data, FirmwareSlots};
use rmk::dfu::{dfu_flash_layout, DfuCmd, DfuTarget, FlashRegion, MAX_DFU_ALTS};
use rmk::host::dfu::{DfuEvents, DfuRynkState};
use rmk::protocol::command::Cmd;
use rmk::protocol::dfu::{
    DfuCrcRewindRequest, DfuCrcSyncRequest, DfuData, DfuVerifyRequest, DfuWriteRequest,
};
use rmk::protocol::frame::{cobs_decode, encode_frame, encode_result, RynkError, RynkHeader};
use rmk::split::ble::dfu_session::{self, fixed_reply, queue_reply, DfuStep, FixedReply};
use rmk::time::{Duration, Instant};
use rmk::types::DfuStatus;

fn secs(n: u64) -> Instant {
    Instant::from_ticks(0).after(Duration::from_secs(n))
}

// --- CRC --------------------------------------------------------------------

#[test]
fn crc32_of_the_standard_check_input() {
    assert_eq!(crc32(b"123456789"), 0xCBF4_3926);
    assert_eq!(crc32(b""), 0);
}

#[test]
fn a_resumed_crc_goes_on_where_it_stopped() {
    let mut whole = Crc32::new();
    whole.update(b"123456789");
    let mut first = Crc32::new();
    first.update(b"1234");
    let mut resumed = Crc32::from_state(first.finalize());
    resumed.update(b"56789");
    assert_eq!(resumed.finalize(), whole.finalize());
}

// --- Commands and layout ----------------------------------------------------

#[test]
fn commands_know_their_target() {
    assert!(DfuCmd::Start(DfuTarget::Central).is_central());
    assert!(!DfuCmd::Start(DfuTarget::Local).is_central());
    assert!(!DfuCmd::ComputeCrc.is_central());
    assert_eq!(DfuCmd::UnlockRequest.target(), None);
    let last = (MAX_DFU_ALTS - 1) as u8;
    assert!(DfuCmd::Finish(DfuTarget::ForwardPeripheral(last)).is_valid_peripheral());
    assert!(!DfuCmd::Finish(DfuTarget::ForwardPeripheral(last + 1)).is_valid_peripheral());
    assert!(!DfuCmd::Finish(DfuTarget::Central).is_valid_peripheral());
}

#[test]
fn the_layout_holds_offsets_and_sizes() {
    let layout = dfu_flash_layout(
        FlashRegion { start: 0x6000, end: 0x7000 },
        FlashRegion { start: 0x80000, end: 0xF1000 },
        FlashRegion { start: 0xF1000, end: 0xF9000 },
    );
    assert_eq!((layout.state_offset, layout.state_size), (0x6000, 0x1000));
    assert_eq!((layout.dfu_offset, layout.dfu_size), (0x80000, 0x71000));
    assert_eq!((layout.storage_offset, layout.storage_size), (0xF1000, 0x8000));
}

#[test]
fn a_block_holds_what_it_was_given() {
    assert_eq!(DfuBlock::from_slice(&[1, 2, 3]).unwrap().as_slice(), &[1, 2, 3]);
    assert!(DfuBlock::from_slice(&[0; BLOCK_SIZE_DFU]).is_ok());
    assert!(DfuBlock::from_slice(&[0; BLOCK_SIZE_DFU + 1]).is_err());
}

// --- Registry ---------------------------------------------------------------

#[test]
fn images_are_found_by_id_and_replaced() {
    let mut slots = FirmwareSlots::new();
    assert_eq!(get_firmware_update_data(&slots, 0), None);
    assert_eq!(set_firmware_update_data(&mut slots, 0, b"old", 1), Ok(()));
    assert_eq!(set_firmware_update_data(&mut slots, 7, b"other", 2), Ok(()));
    assert_eq!(set_firmware_update_data(&mut slots, 0, b"new", 3), Ok(()));
    assert_eq!(get_firmware_update_data(&slots, 0), Some((b"new".as_slice(), 3)));
    assert_eq!(get_firmware_update_data(&slots, 7), Some((b"other".as_slice(), 2)));
    assert_eq!(get_firmware_update_data(&slots, 1), None);
}

#[test]
fn a_full_registry_takes_no_new_id() {
    let mut slots = FirmwareSlots::new();
    for id in 0..MAX_DFU_ALTS {
        assert_eq!(set_firmware_update_data(&mut slots, id, b"image", id as u32), Ok(()));
    }
    assert_eq!(set_firmware_update_data(&mut slots, MAX_DFU_ALTS, b"image", 9), Err(()));
    assert_eq!(get_firmware_update_data(&slots, MAX_DFU_ALTS), None);
    assert_eq!(set_firmware_update_data(&mut slots, 0, b"new", 9), Ok(()));
}

// --- Flash ------------------------------------------------------------------

/// Carries a chunk out and lists what the flash had to do.
fn write_all(h: &mut FlashDfuHandler, offset: u32, len: u32) -> Vec<FlashOp> {
    let mut ops = Vec::new();
    let mut w = match h.write_chunk(offset, len) {
        ChunkPlan::Write(w) => w,
        other => panic!("{:?}", other),
    };
    loop {
        let op = h.next_op(w);
        ops.push(op);
        match op {
            FlashOp::Erase { .. } => h.erased(&mut w),
            FlashOp::Write { .. } => {
                assert_eq!(h.written(w), DfuStatus::Downloading);
                return ops;
            }
        }
    }
}

#[test]
fn pages_are_erased_once_before_they_are_written() {
    let mut h = FlashDfuHandler::new(4, 4096);
    assert_eq!(
        write_all(&mut h, 0, 512),
        vec![FlashOp::Erase { from: 0, to: 4096 }, FlashOp::Write { offset: 0 }]
    );
    assert_eq!(write_all(&mut h, 512, 512), vec![FlashOp::Write { offset: 512 }]);
    assert_eq!(
        write_all(&mut h, 4000, 5000),
        vec![
            FlashOp::Erase { from: 4096, to: 8192 },
            FlashOp::Erase { from: 8192, to: 12288 },
            FlashOp::Write { offset: 4000 },
        ]
    );
    assert_eq!(h.written_len, 9000);
}

#[test]
fn a_page_met_again_is_not_erased_again() {
    let mut h = FlashDfuHandler::new(4, 4096);
    write_all(&mut h, 0, 256);
    assert_eq!(
        write_all(&mut h, 4096, 256),
        vec![FlashOp::Erase { from: 4096, to: 8192 }, FlashOp::Write { offset: 4096 }]
    );
    // Page 0 keeps the bytes that it has.
    assert_eq!(write_all(&mut h, 256, 256), vec![FlashOp::Write { offset: 256 }]);
    // Pages in between that are left are erased, those around them are not.
    write_all(&mut h, 12288, 256);
    assert_eq!(
        write_all(&mut h, 4352, 8192),
        vec![FlashOp::Erase { from: 8192, to: 12288 }, FlashOp::Write { offset: 4352 }]
    );
    // A new image erases from the start.
    assert_eq!(
        write_all(&mut h, 0, 256),
        vec![FlashOp::Erase { from: 0, to: 4096 }, FlashOp::Write { offset: 0 }]
    );
}

#[test]
fn odd_chunks_are_refused() {
    let mut h = FlashDfuHandler::new(4, 4096);
    assert_eq!(h.write_chunk(0, 0), ChunkPlan::Nothing);
    assert_eq!(h.write_chunk(2, 4), ChunkPlan::Unaligned);
    assert_eq!(h.write_chunk(4, 3), ChunkPlan::Unaligned);
}

#[test]
fn offset_zero_starts_a_new_image() {
    let mut h = FlashDfuHandler::new(1, 4096);
    write_all(&mut h, 0, 8192);
    write_all(&mut h, 0, 16);
    assert_eq!(h.written_len, 16);
}

#[test]
fn what_was_written_is_read_back_in_pieces() {
    let image: Vec<u8> = (0..600u32).map(|i| (i % 251) as u8).collect();
    let mut h = FlashDfuHandler::new(1, 4096);
    write_all(&mut h, 0, 600);
    let mut scan = h.compute_dfu_crc();
    let mut reads = Vec::new();
    while let Some((at, len)) = scan.next_read() {
        reads.push((at, len));
        scan.feed(&image[at as usize..(at + len) as usize]);
    }
    assert_eq!(reads, vec![(0, 256), (256, 256), (512, 88)]);
    assert_eq!(scan.finish(), crc32(&image));
}

#[test]
fn blank_images_are_not_booted() {
    assert!(check_sanity(&[0, 0, 4, 0x20, 1, 1, 0, 0]));
    assert!(!check_sanity(&[0xFF, 0xFF, 0xFF, 0xFF, 1, 1, 0, 0]));
    assert!(!check_sanity(&[0, 0, 0, 0, 1, 1, 0, 0]));
    assert!(!check_sanity(&[0, 0, 4, 0x20, 0xFF, 0xFF, 0xFF, 0xFF]));
    assert!(!check_sanity(&[0, 0, 4, 0x20, 0, 0, 0, 0]));
    assert!(check_sanity(&[0xFF, 0xFF, 0xFF, 0, 0, 0, 0, 1]));
}

#[test]
fn the_updater_takes_its_own_commands() {
    let block = || DfuBlock::from_slice(&[1]).unwrap();
    assert_eq!(handle_cmd(&DfuCmd::ComputeCrc), HandlerTask::ReportCrc);
    assert_eq!(
        handle_cmd(&DfuCmd::Write(DfuTarget::Local, 0, block())),
        HandlerTask::WriteBlock { respond: true }
    );
    assert_eq!(
        handle_cmd(&DfuCmd::Write(DfuTarget::Central, 0, block())),
        HandlerTask::WriteBlock { respond: false }
    );
    assert_eq!(
        handle_cmd(&DfuCmd::Write(DfuTarget::ForwardPeripheral(0), 0, block())),
        HandlerTask::Skip
    );
    assert_eq!(handle_cmd(&DfuCmd::Start(DfuTarget::Central)), HandlerTask::ClearFailure);
    assert_eq!(handle_cmd(&DfuCmd::Finish(DfuTarget::Local)), HandlerTask::Finish);
    assert_eq!(handle_cmd(&DfuCmd::SystemReset(DfuTarget::Central)), HandlerTask::Reboot);
    assert_eq!(handle_cmd(&DfuCmd::UnlockRequest), HandlerTask::Skip);
}

#[test]
fn a_failed_write_spoils_the_download() {
    let sane = Some([0, 0, 4, 0x20, 1, 1, 0, 0]);
    let mut session = DfuSession::new();
    assert_eq!(session.block_written(true), None);
    assert_eq!(session.block_written(false), Some(DfuStatus::Error));
    assert!(session.write_failed);
    assert_eq!(session.finish(), FinishStep::Report(DfuStatus::Error));
    assert!(!session.write_failed);
    assert_eq!(session.finish(), FinishStep::CheckImage);
    assert_eq!(session.checked(sane), FinishStep::MarkUpdated);
    assert_eq!(session.marked(true), DfuStatus::Finished);
    assert_eq!(session.marked(false), DfuStatus::Error);
    assert_eq!(session.checked(None), FinishStep::Report(DfuStatus::Error));
    assert!(session.write_failed);
    session.start();
    assert!(!session.write_failed);
}

// --- Lock -------------------------------------------------------------------

fn matrix(pressed: &[(usize, usize)]) -> MatrixState {
    let mut state = MatrixState { cols: 4, pressed: vec![false; 12] };
    for (row, col) in pressed {
        state.pressed[row * 4 + col] = true;
    }
    state
}

#[test]
fn only_all_the_keys_unlock() {
    let keys = [(0, 0), (2, 3)];
    let mut lock = DfuLock::new(&keys);
    assert!(lock.locked());
    assert_eq!(lock.poll(&matrix(&[(0, 0), (2, 3)]), secs(0)), None);
    assert_eq!(lock.on_command(&DfuCmd::UnlockRequest, secs(1)), Some(DfuStatus::LockWaiting));
    assert!(!lock.takes_commands());
    assert_eq!(lock.poll(&matrix(&[(0, 0)]), secs(2)), None);
    assert!(lock.locked());
    let both = matrix(&[(0, 0), (2, 3)]);
    assert_eq!(lock.poll(&both, secs(3)), Some(DfuStatus::LockUnlocked));
    assert!(!lock.locked());
    assert!(lock.takes_commands());
    assert_eq!(lock.on_command(&DfuCmd::Start(DfuTarget::Central), secs(4)), None);
    assert_eq!(lock.phase(), LockPhase::Downloading { deadline: secs(4 + STALL_SECS) });
    assert_eq!(lock.on_command(&DfuCmd::Finish(DfuTarget::Central), secs(5)), Some(DfuStatus::Idle));
    assert!(lock.locked());
}

#[test]
fn the_unlock_window_closes() {
    let keys = [(1, 1)];
    let mut lock = DfuLock::new(&keys);
    lock.on_command(&DfuCmd::UnlockRequest, secs(0));
    let late = secs(UNLOCK_WINDOW_SECS);
    assert_eq!(lock.poll(&matrix(&[]), late), Some(DfuStatus::Idle));
    lock.on_command(&DfuCmd::UnlockRequest, late);
    lock.poll(&matrix(&[(1, 1)]), late);
    assert_eq!(lock.on_timeout(), Some(DfuStatus::Idle));
    assert!(lock.locked());
}

#[test]
fn other_commands_do_not_use_the_window_up() {
    let keys = [(1, 1)];
    let mut lock = DfuLock::new(&keys);
    lock.on_command(&DfuCmd::UnlockRequest, secs(0));
    lock.poll(&matrix(&[(1, 1)]), secs(1));
    let open = LockPhase::Unlocked { deadline: secs(1 + UNLOCK_WINDOW_SECS) };
    assert_eq!(lock.on_command(&DfuCmd::UnlockRequest, secs(2)), None);
    assert_eq!(lock.on_command(&DfuCmd::Finish(DfuTarget::Central), secs(3)), None);
    assert_eq!(lock.phase(), open);
    assert_eq!(lock.on_command(&DfuCmd::Start(DfuTarget::Central), secs(9)), None);
    assert!(!lock.locked());
    // Nor do they end a download, or give it more time.
    let running = LockPhase::Downloading { deadline: secs(9 + STALL_SECS) };
    assert_eq!(lock.on_command(&DfuCmd::ComputeCrc, secs(10)), None);
    assert_eq!(lock.on_command(&DfuCmd::Start(DfuTarget::Central), secs(11)), None);
    assert_eq!(lock.phase(), running);
    let block = DfuBlock::from_slice(&[1]).unwrap();
    assert_eq!(lock.on_command(&DfuCmd::Write(DfuTarget::Central, 0, block), secs(12)), None);
    assert_eq!(lock.phase(), LockPhase::Downloading { deadline: secs(12 + STALL_SECS) });
    let reset = DfuCmd::SystemReset(DfuTarget::Central);
    assert_eq!(lock.on_command(&reset, secs(13)), Some(DfuStatus::Idle));
    assert!(lock.locked());
}

#[test]
fn keys_outside_the_matrix_are_up() {
    let m = matrix(&[(0, 0)]);
    assert!(m.read_matrix_key(0, 0));
    assert!(!m.read_matrix_key(0, 4));
    assert!(!m.read_matrix_key(9, 0));
}

#[test]
fn a_locked_keyboard_refuses_downloads() {
    assert_eq!(dfu_lock_check(true), Err((DfuRefusal::ErrVendor, DfuCmd::UnlockRequest)));
    assert_eq!(dfu_lock_check(false), Ok(()));
}

// --- Host commands ----------------------------------------------------------

#[test]
fn a_chunk_is_cut_into_blocks() {
    let data: Vec<u8> = (0..1100u32).map(|i| i as u8).collect();
    let mut state = DfuRynkState::new();
    let request = DfuWriteRequest { offset: 100, data: DfuData::from_slice(&data).unwrap() };
    let events = state.handle_write(&request, false).unwrap();
    assert_eq!(events.status, Some(DfuStatus::Downloading));
    let mut at = 0;
    let mut sizes = Vec::new();
    for cmd in &events.cmds {
        match cmd {
            DfuCmd::Write(DfuTarget::Central, offset, block) => {
                let n = block.as_slice().len();
                assert_eq!(*offset as usize, 100 + at);
                assert_eq!(block.as_slice(), &data[at..at + n]);
                at += n;
                sizes.push(n);
            }
            other => panic!("{:?}", other),
        }
    }
    assert_eq!(sizes, vec![512, 512, 76]);
    assert_eq!(state.current_offset, 1200);
    assert_eq!(state.running_crc.finalize(), crc32(&data));
    assert!(matches!(state.handle_write(&request, true), Err(RynkError::Internal)));
    assert_eq!(state.current_offset, 1200);
}

#[test]
fn a_rewound_download_goes_on_from_its_checkpoint() {
    let mut state = DfuRynkState::new();
    let events = state.handle_start();
    assert_eq!(events.cmds, vec![DfuCmd::Start(DfuTarget::Central)]);
    assert_eq!(events.status, Some(DfuStatus::Started));
    let chunk = |offset, data: &[u8]| {
        DfuWriteRequest { offset, data: DfuData::from_slice(data).unwrap() }
    };
    state.handle_write(&chunk(0, b"1234"), false).unwrap();
    let checkpoint = crc32(b"1234");
    assert_eq!(state.handle_crc_sync(DfuCrcSyncRequest { expected_crc: checkpoint }), Ok(()));
    state.handle_write(&chunk(4, b"garbled"), false).unwrap();
    assert_eq!(
        state.handle_crc_sync(DfuCrcSyncRequest { expected_crc: crc32(b"123456789") }),
        Err(RynkError::Internal)
    );
    state.handle_crc_rewind(DfuCrcRewindRequest { offset: 4, crc: checkpoint });
    assert_eq!(state.current_offset, 4);
    state.handle_write(&chunk(4, b"56789"), false).unwrap();
    assert_eq!(state.handle_verify(DfuVerifyRequest { crc32: 0xCBF4_3926 }), Ok(()));
    assert_eq!(state.handle_verify(DfuVerifyRequest { crc32: 0 }), Err(RynkError::Internal));
}

#[test]
fn commands_are_dispatched() {
    let mut state = DfuRynkState::new();
    assert_eq!(state.dispatch_dfu_cmd(Cmd::DfuStart, &[], false).0, Ok(()));
    let payload = DfuWriteRequest { offset: 0, data: DfuData::from_slice(b"123456789").unwrap() };
    let payload = payload.encode();
    let (result, events) = state.dispatch_dfu_cmd(Cmd::DfuWrite, &payload, false);
    assert_eq!((result, events.cmds.len()), (Ok(()), 1));
    let verify = DfuVerifyRequest { crc32: 0xCBF4_3926 }.encode();
    assert_eq!(state.dispatch_dfu_cmd(Cmd::DfuVerify, &verify, false).0, Ok(()));
    assert_eq!(state.dispatch_dfu_cmd(Cmd::DfuVerify, &[], false).0, Err(RynkError::Internal));
    assert_eq!(state.dispatch_dfu_cmd(Cmd::GetVersion, &[], false).0, Err(RynkError::UnknownCmd));
    let (result, events) = state.dispatch_dfu_cmd(Cmd::DfuFinish, &[], false);
    assert_eq!(result, Ok(()));
    assert_eq!(events.cmds, vec![DfuCmd::Finish(DfuTarget::Central)]);
    let (_, events) = state.dispatch_dfu_cmd(Cmd::DfuReset, &[], false);
    assert_eq!(events.cmds, vec![DfuCmd::SystemReset(DfuTarget::Central)]);
}

// --- A session over the air -------------------------------------------------

/// Bytes that stand for a fixed answer.
fn encoded(reply: FixedReply) -> Vec<u8> {
    match reply {
        FixedReply::Version => vec![1, 2],
        FixedReply::Capabilities { max_payload_size, .. } => {
            max_payload_size.to_le_bytes().to_vec()
        }
        FixedReply::LockStatus { locked, unlocking, remaining_keys } => {
            vec![locked as u8, unlocking as u8, remaining_keys]
        }
    }
}

/// Hands a write to a session and works everything off.
fn work_off(
    session: &mut dfu_session::DfuSession,
    data: &[u8],
    write_failed: impl Fn(usize) -> bool,
) -> (NotifyQueue, Vec<DfuEvents>) {
    let mut queue = NotifyQueue::new();
    let mut events = Vec::new();
    session.take_in(data);
    loop {
        match session.run_dfu_session(write_failed(events.len()), &mut queue) {
            DfuStep::Done => return (queue, events),
            DfuStep::Answered(made_known) => events.push(made_known),
            DfuStep::Encode { header, reply } => {
                queue_reply(&mut queue, header, &encoded(reply));
            }
        }
    }
}

#[test]
fn fixed_answers_tell_what_the_device_is() {
    assert_eq!(fixed_reply(Cmd::GetVersion), Some(FixedReply::Version));
    assert_eq!(
        fixed_reply(Cmd::GetCapabilities),
        Some(FixedReply::Capabilities {
            dfu_enabled: true,
            is_split: true,
            ble_enabled: true,
            max_payload_size: 2048,
        })
    );
    assert_eq!(
        fixed_reply(Cmd::GetLockStatus),
        Some(FixedReply::LockStatus { locked: false, unlocking: false, remaining_keys: 0 })
    );
    assert_eq!(fixed_reply(Cmd::DfuStart), None);
    assert_eq!(fixed_reply(Cmd::Other(9)), None);
}

#[test]
fn a_started_download_speeds_its_link_up() {
    let params = dfu_session::dfu_conn_params();
    assert_eq!((params.min_interval_us, params.max_interval_us), (7_500, 7_500));
    assert_eq!((params.max_latency, params.supervision_timeout_us), (0, 20_000_000));
    assert!(dfu_session::wants_dfu_conn_params(DfuStatus::Started));
    assert!(!dfu_session::wants_dfu_conn_params(DfuStatus::Downloading));
    assert!(!dfu_session::wants_dfu_conn_params(DfuStatus::Finished));
}

#[test]
fn a_failed_write_is_seen_by_the_next_message() {
    let mut session = dfu_session::DfuSession::new(DfuRynkState::new());
    let mut stream = Vec::new();
    for seq in 0..2 {
        let request = DfuWriteRequest { offset: 4 * seq, data: DfuData::from_slice(&[7; 4]).unwrap() };
        let header = RynkHeader { cmd: Cmd::DfuWrite.raw(), seq: seq as u8 };
        stream.extend(encode_frame(header, &request.encode()));
    }
    let (queue, events) = work_off(&mut session, &stream, |worked_off| worked_off == 1);
    assert_eq!(events.len(), 2);
    assert!(!events[0].cmds.is_empty());
    assert!(events[1].cmds.is_empty());
    let mut refused = vec![0x01, 0x0D, 1];
    refused.extend(encode_result(Err(RynkError::Internal)));
    assert_eq!(message(queue.frames()[1].as_slice()), refused);
}

/// The message of a frame that came out.
fn message(frame: &[u8]) -> Vec<u8> {
    assert_eq!(*frame.last().unwrap(), 0);
    cobs_decode(&frame[..frame.len() - 1]).unwrap()
}

#[test]
fn a_session_answers_whole_messages_in_order() {
    let mut session = dfu_session::DfuSession::new(DfuRynkState::new());
    let version = encode_frame(RynkHeader { cmd: Cmd::GetVersion.raw(), seq: 4 }, &[]);
    let start = encode_frame(RynkHeader { cmd: Cmd::DfuStart.raw(), seq: 5 }, &[]);
    let stream: Vec<u8> = version.iter().chain(start.iter()).copied().collect();
    let (first, rest) = stream.split_at(3);
    let (queue, events) = work_off(&mut session, first, |_| false);
    assert_eq!((queue.frames().len(), events.len()), (0, 0));
    let (queue, events) = work_off(&mut session, rest, |_| false);
    assert_eq!(queue.frames().len(), 2);
    assert_eq!(message(queue.frames()[0].as_slice()), vec![0x01, 0x00, 4, 1, 2]);
    let mut started = vec![0x00, 0x0D, 5];
    started.extend(encode_result(Ok(())));
    assert_eq!(message(queue.frames()[1].as_slice()), started);
    assert!(events.iter().any(|e| e.cmds == vec![DfuCmd::Start(DfuTarget::Central)]));
}

#[test]
fn a_session_turns_unknown_commands_down() {
    let mut session = dfu_session::DfuSession::new(DfuRynkState::new());
    let frame = encode_frame(RynkHeader { cmd: 0x0555, seq: 1 }, &[]);
    let (queue, _) = work_off(&mut session, &frame, |_| false);
    let mut refused = vec![0x55, 0x05, 1];
    refused.extend(encode_result(Err(RynkError::UnknownCmd)));
    assert_eq!(message(queue.frames()[0].as_slice()), refused);
}

#[test]
fn answers_beyond_the_queue_are_dropped() {
    let mut session = dfu_session::DfuSession::new(DfuRynkState::new());
    let mut stream = Vec::new();
    for seq in 0..8 {
        stream.extend(encode_frame(RynkHeader { cmd: Cmd::DfuStart.raw(), seq }, &[]));
    }
    let (queue, events) = work_off(&mut session, &stream, |_| false);
    assert_eq!(queue.frames().len(), NOTIFY_QUEUE_SIZE);
    assert_eq!(events.len(), 8);
    assert!(queue.frames().iter().all(|f| f.as_slice().len() <= NOTIFY_SIZE));
}
