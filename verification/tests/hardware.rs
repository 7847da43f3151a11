//! Flash chip, display and analog inputs.

use rmk::display::lcd::{gather, pass_rows, FlushPlan, LcdAsyncDisplay, Point, Rectangle};
use rmk::driver::w25q::{
    command, is_busy, is_write_enabled, next_erase, next_program, page_program, BusAction,
    BusInput, EraseUnit, FlashOperation, OpStep, W25qError, BUSY_TIMEOUT_SECS, CMD_PAGE_PROGRAM,
    CMD_READ, CMD_SECTOR_ERASE, CMD_WRITE_ENABLE, CMD_WRITE_STATUS,
};
use rmk::input_device::adc::{
    AdcState, AdcWait, AnalogEventType, NrfAdc, NrfAdcEvent, BATTERY_PERIOD_SECS,
};
use rmk::input_device::joystick_power::{adc_axis, JoystickPowerConfig};
use rmk::time::{Duration, Instant};
use rmk::types::{BatteryAdcEvent, PointingEvent};

fn ms(n: u64) -> Instant {
    Instant::from_ticks(0).after(Duration::from_millis(n))
}

// --- Flash chip -------------------------------------------------------------

#[test]
fn commands_carry_a_24_bit_address() {
    assert_eq!(command(CMD_READ, 0x0012_3456), vec![0x03, 0x12, 0x34, 0x56]);
    assert_eq!(page_program(0x100, &[9, 8]), vec![CMD_PAGE_PROGRAM, 0, 1, 0, 9, 8]);
    assert!(is_busy(0x01) && !is_busy(0x02));
    assert!(is_write_enabled(0x02) && !is_write_enabled(0x01));
}

/// Steps an operation through its statuses and lists what went over the bus.
fn run_op(op: &mut FlashOperation, statuses: &[u8], now: Instant) -> (Vec<BusAction>, OpStep<u8>) {
    let mut bus = Vec::new();
    let mut left = statuses.iter();
    loop {
        let action = op.action();
        let input = match &action {
            BusAction::Write(_) => BusInput::Written,
            BusAction::ReadStatus => BusInput::Status(*left.next().unwrap()),
            BusAction::Finish => panic!("over"),
        };
        bus.push(action);
        match op.advance(input, now) {
            OpStep::Continue => {}
            step => return (bus, step),
        }
    }
}

#[test]
fn an_erasure_is_enabled_sent_and_awaited() {
    let mut op = FlashOperation::erase(EraseUnit::Sector, 0x1000);
    let (bus, step) = run_op(&mut op, &[0x02, 0x01, 0x01, 0x00], ms(0));
    assert_eq!(step, OpStep::Finished);
    assert_eq!(bus[0], BusAction::Write(vec![CMD_WRITE_ENABLE]));
    assert_eq!(bus[2], BusAction::Write(vec![CMD_SECTOR_ERASE, 0, 0x10, 0]));
    assert_eq!(bus.len(), 6);
    assert_eq!(op.action(), BusAction::Finish);
}

#[test]
fn the_chip_can_refuse_in_four_ways() {
    let mut op = FlashOperation::erase(EraseUnit::Sector, 0);
    assert_eq!(run_op(&mut op, &[0x00], ms(0)).1, OpStep::Failed(W25qError::WriteProtect));
    let mut op = FlashOperation::erase(EraseUnit::Block64K, 0);
    assert_eq!(run_op(&mut op, &[0x02, 0x00], ms(0)).1, OpStep::Failed(W25qError::WriteNotAccepted));
    let mut op = FlashOperation::wait_wip(ms(0));
    assert_eq!(op.advance::<u8>(BusInput::Status(1), ms(1)), OpStep::Continue);
    assert_eq!(
        op.advance::<u8>(BusInput::Status(1), ms(BUSY_TIMEOUT_SECS * 1000)),
        OpStep::Failed(W25qError::Timeout)
    );
    let mut op = FlashOperation::program(0, &[1]);
    assert_eq!(op.advance(BusInput::Failed(7u8), ms(0)), OpStep::Failed(W25qError::Spi(7)));
}

#[test]
fn programs_are_not_asked_whether_they_started() {
    let mut op = FlashOperation::program(0x200, &[5]);
    let (bus, step) = run_op(&mut op, &[0x02, 0x00], ms(0));
    assert_eq!((bus.len(), step), (4, OpStep::Finished));
    let mut op = FlashOperation::clear_block_protection();
    let (bus, _) = run_op(&mut op, &[0x02, 0x00], ms(0));
    assert_eq!(bus[2], BusAction::Write(vec![CMD_WRITE_STATUS, 0]));
}

#[test]
fn flash_errors_have_words() {
    let words = |e: W25qError<u8>| e.message("no clock");
    assert_eq!(words(W25qError::Spi(1)), "SPI error: no clock");
    assert_eq!(words(W25qError::Timeout), "timeout waiting for write-in-progress to clear");
    assert_eq!(words(W25qError::WriteProtect), "write enable latch not set (write protected?)");
    assert_eq!(words(W25qError::WriteNotAccepted), "command not accepted by flash");
}

#[test]
fn ranges_are_erased_in_the_largest_units() {
    let mut at = 0xF000;
    let mut units = Vec::new();
    while let Some(unit) = next_erase(at, 0x21000) {
        units.push((at, unit));
        at += unit.size();
    }
    assert_eq!(
        units,
        vec![(0xF000, EraseUnit::Sector), (0x10000, EraseUnit::Block64K), (0x20000, EraseUnit::Sector)]
    );
    assert_eq!(at, 0x21000);
}

#[test]
fn programs_end_at_page_boundaries() {
    assert_eq!(next_program(0, 300), 256);
    assert_eq!(next_program(250, 300), 6);
    assert_eq!(next_program(250, 3), 3);
}

#[test]
fn the_programs_of_a_write_cover_its_bytes() {
    let (start, len) = (0x1F0u32, 600usize);
    let mut lens = Vec::new();
    let mut done = 0;
    while done < len {
        let n = next_program(start + done as u32, len - done);
        assert!((start as usize + done) % 256 + n <= 256);
        lens.push(n);
        done += n;
    }
    assert_eq!(lens, vec![16, 256, 256, 72]);
    assert_eq!(done, len);
}

// --- Display ----------------------------------------------------------------

fn rect(x: i32, y: i32, width: u32, height: u32) -> Rectangle {
    Rectangle { top_left: Point { x, y }, width, height }
}

#[test]
fn a_new_display_is_sent_whole_and_then_nothing() {
    let mut d = LcdAsyncDisplay::<8, 4>::new(64);
    assert_eq!(d.flush_plan(), FlushPlan::Rows { y: 0, height: 4 });
    d.flushed();
    assert_eq!(d.flush_plan(), FlushPlan::Nothing);
    d.mark_dirty(&rect(20, 20, 2, 2));
    d.mark_dirty(&rect(1, 1, 0, 5));
    assert_eq!(d.flush_plan(), FlushPlan::Nothing);
}

#[test]
fn drawings_merge_and_are_clipped() {
    let mut d = LcdAsyncDisplay::<8, 4>::new(64).with_staging(12);
    d.flushed();
    d.mark_dirty(&rect(-3, 1, 5, 1));
    assert_eq!(
        d.flush_plan(),
        FlushPlan::Staged { x: 0, y: 1, width: 2, height: 1, rows_per_pass: 3 }
    );
    d.mark_pixels(&vec![Point { x: 4, y: 3 }, Point { x: 3, y: 2 }]);
    assert_eq!(
        d.flush_plan(),
        FlushPlan::Staged { x: 0, y: 1, width: 5, height: 3, rows_per_pass: 1 }
    );
    // Too wide for the scratch: whole rows.
    d.mark_pixels(&vec![Point { x: 6, y: 1 }]);
    assert_eq!(d.flush_plan(), FlushPlan::Rows { y: 1, height: 3 });
}

#[test]
fn rows_are_gathered_pass_by_pass() {
    let buffer: Vec<u8> = (0..64).collect();
    let mut staging = vec![0xEE; 10];
    gather(&buffer, &mut staging, 8, 2, 1, 2, 2);
    assert_eq!(staging, vec![20, 21, 22, 23, 36, 37, 38, 39, 0xEE, 0xEE]);
    assert_eq!(pass_rows(1, 4, 2), 2);
    assert_eq!(pass_rows(3, 4, 2), 1);
}

// --- Analog inputs ----------------------------------------------------------

fn adc() -> NrfAdc {
    NrfAdc::new(
        3,
        vec![AnalogEventType::Joystick(2), AnalogEventType::Battery],
        vec![9, 0],
        Duration::from_millis(20),
        Some(Duration::from_millis(350)),
    )
}

fn pointing(event: Option<NrfAdcEvent>) -> PointingEvent {
    match event {
        Some(NrfAdcEvent::Pointing(p)) => p,
        other => panic!("{:?}", other),
    }
}

#[test]
fn slots_are_read_one_after_the_other() {
    let mut a = adc();
    assert_eq!(a.wait(), AdcWait::SampleFirst);
    a.first_sampled(&vec![100, 200, 300], ms(1));
    assert_eq!(a.wait(), AdcWait::Sleep(Duration::from_millis(350)));
    assert!(!a.waited(ms(10)));
    let p = pointing(a.read_nrf_adc_event());
    assert_eq!(p.device_id, 9);
    assert_eq!(p.axes[0].value, adc_axis(100));
    assert_eq!(p.axes[1].value, adc_axis(200));
    assert_eq!(p.axes[2].value, 0);
    assert_eq!(a.read_nrf_adc_event(), Some(NrfAdcEvent::Battery(BatteryAdcEvent(300))));
    assert!(a.waited(ms(20)));
}

#[test]
fn motion_wakes_and_rest_puts_to_sleep() {
    let mut a = adc();
    a.first_sampled(&vec![100, 200, 300], ms(1));
    a.sampled(&vec![250, 200, 300], ms(30));
    assert_eq!(a.adc_state, AdcState::LightSleep);
    a.sampled(&vec![0, 200, 300], ms(60));
    assert_eq!(a.adc_state, AdcState::Active);
    assert_eq!(a.wait(), AdcWait::Sleep(Duration::from_millis(20)));
    a.waited(ms(60 + 1200));
    assert_eq!(a.adc_state, AdcState::Active);
    a.waited(ms(60 + 1201));
    assert_eq!(a.adc_state, AdcState::LightSleep);
}

fn powered() -> NrfAdc {
    let config = JoystickPowerConfig {
        polling_rate_hz: 50,
        power_on_duty: 100,
        idle_polling_rate_hz: 5,
        idle_power_on_duty: 10,
        sample_settle_us: 30,
        boot_settle_ms: 2,
    };
    adc().with_power_management(config, vec![true, false], vec![[0; 3]; 2], vec![100, 0])
}

#[test]
fn a_powered_run_samples_reads_the_battery_and_waits() {
    let mut a = powered();
    assert!(a.waited(ms(0)));
    let start = a.begin_sample();
    assert_eq!((start.at.ticks, start.boot_settle_ms), (0, Some(2)));
    // The wait is asked for until it is over.
    assert_eq!(a.begin_sample().boot_settle_ms, Some(2));
    a.boot_settled();
    let window = a.sample_window(ms(5));
    assert_eq!(window.settle_cycles, Some(30 * 64));
    assert_eq!(window.deadline, ms(7));
    let end = a.end_sample(Some(vec![700, 800, 1]), ms(6));
    assert!(end.read_battery && !end.keep_on && !end.warn);
    a.battery_sampled(Some(vec![1, 2, 3000]), ms(8));
    a.end_run(ms(5), ms(9));
    let p = pointing(a.read_powered_event());
    // The battery's reading does not reach the stick.
    assert_eq!(p.axes[0].value, adc_axis(700));
    assert_eq!(p.axes[1].value, adc_axis(800));
    assert_eq!(a.read_powered_event(), Some(NrfAdcEvent::Battery(BatteryAdcEvent(3000))));
    let start = a.begin_sample();
    assert_eq!((start.at, start.boot_settle_ms), (ms(25), None));
    // The battery is not due again before its period is over.
    assert!(!a.end_sample(Some(vec![700, 800, 1]), ms(26)).read_battery);
    assert!(a.end_sample(Some(vec![700, 800, 1]), ms(8 + BATTERY_PERIOD_SECS * 1000)).read_battery);
}

#[test]
fn a_missed_sample_warns_once_and_gives_no_event() {
    let mut a = powered();
    a.begin_sample();
    assert!(a.end_sample(None, ms(1)).warn);
    assert!(!a.end_sample(None, ms(2)).warn);
    a.end_run(ms(0), ms(500));
    // A missed run is skipped, not caught up.
    assert_eq!(a.begin_sample().at.ticks, ms(500).ticks + 1);
    assert_eq!(a.read_powered_event(), None);
    assert_eq!(a.read_powered_event(), None);
}
