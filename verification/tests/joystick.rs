//! Joysticks: filtering, power and motion.

use rmk::input_device::joystick::{self, JoystickProcessor, ALL_POINTING_DEVICES};
use rmk::input_device::joystick_power::{
    adc_axis, apply_deadzone, IdleReportFilter, IdleTracker, JoystickPowerConfig,
};
use rmk::types::{Axis, AxisEvent, AxisValType, PointingEvent};

#[test]
fn idle_filter_preserves_motion_buttons_and_reconnection() {
    let mut filter = IdleReportFilter::default();
    assert!(filter.should_send(0, 0, false));
    filter.record_queued(0, 0, false);
    assert!(!filter.should_send(0, 0, false));
    assert!(filter.should_send(0, 0, true));
    assert!(filter.should_send(0, 1, false));
    assert!(filter.should_send(1, 0, false));
}

#[test]
fn deadzone_is_symmetric_and_continuous() {
    for value in -100..=100 {
        assert_eq!(apply_deadzone(value, 100), 0);
    }
    assert_eq!(apply_deadzone(101, 100), 1);
    assert_eq!(apply_deadzone(-101, 100), -1);
    assert_eq!(apply_deadzone(i16::MIN, 100), -32668);
}

#[test]
fn idle_requires_continuous_centering_and_wakes_immediately() {
    let mut tracker = IdleTracker::default();
    tracker.observe(0, true);
    tracker.observe(1_199_999, true);
    assert!(!tracker.idle);
    tracker.observe(1_200_000, true);
    assert!(tracker.idle);
    tracker.observe(1_200_001, false);
    assert!(!tracker.idle);
}

#[test]
fn polling_period_follows_idle_state() {
    let config = joystick::JoystickPowerConfig {
        polling_rate_hz: 50,
        idle_polling_rate_hz: 5,
        sample_settle_us: 3,
        boot_settle_ms: 2,
    };
    assert_eq!(config.period_us(false), 20_000);
    assert_eq!(config.period_us(true), 200_000);
}

#[test]
fn idle_reports_send_once_then_stay_silent() {
    let mut filter = IdleReportFilter::default();
    assert!(filter.should_send(0, 0, false));
    filter.record_queued(0, 0, false);
    for _ in 0..100 {
        assert!(!filter.should_send(0, 0, false));
    }
}

#[test]
fn repeated_relative_motion_is_never_deduplicated() {
    let mut filter = IdleReportFilter::default();
    for _ in 0..100 {
        assert!(filter.should_send(0, 0, true));
        filter.record_queued(0, 0, true);
    }
    // Send one stationary report after movement, then stop repeating it.
    assert!(filter.should_send(0, 0, false));
    filter.record_queued(0, 0, false);
    assert!(!filter.should_send(0, 0, false));
}

#[test]
fn every_button_change_including_release_is_sent() {
    let mut filter = IdleReportFilter::default();
    for buttons in [0, 1, 3, 2, 0] {
        assert!(filter.should_send(0, buttons, false));
        filter.record_queued(0, buttons, false);
        assert!(!filter.should_send(0, buttons, false));
    }
}

#[test]
fn wake_motion_and_drag_are_not_delayed_by_idle_filter() {
    let mut filter = IdleReportFilter::default();
    filter.record_queued(0, 1, false);
    assert!(filter.should_send(0, 1, true));
    filter.record_queued(0, 1, true);
    assert!(filter.should_send(0, 1, true));
    assert!(filter.should_send(0, 0, false));
}

#[test]
fn a_new_connection_resynchronizes_even_with_identical_buttons() {
    let mut filter = IdleReportFilter::default();
    filter.record_queued(10, 0, false);
    assert!(!filter.should_send(10, 0, false));
    // Two transitions can occur between polls, ending on the same transport.
    assert!(filter.should_send(12, 0, false));
    filter.record_queued(12, 0, false);
    assert!(!filter.should_send(12, 0, false));
    assert!(filter.should_send(13, 0, false));
}

#[test]
fn an_unqueued_or_cancelled_report_does_not_suppress_the_next_attempt() {
    let mut filter = IdleReportFilter::default();
    assert!(filter.should_send(1, 0, false));
    assert!(filter.should_send(1, 0, false));
    filter.record_queued(1, 1, false);
    assert!(filter.should_send(1, 0, false));
    assert!(filter.should_send(2, 1, false));
}

#[test]
fn filter_state_is_independent_for_each_joystick() {
    let mut first = IdleReportFilter::default();
    let second = IdleReportFilter::default();
    first.record_queued(0, 0, false);
    assert!(!first.should_send(0, 0, false));
    assert!(second.should_send(0, 0, false));
}

fn config() -> JoystickPowerConfig {
    JoystickPowerConfig {
        polling_rate_hz: 50,
        power_on_duty: 100,
        idle_polling_rate_hz: 10,
        idle_power_on_duty: 20,
        sample_settle_us: 20,
        boot_settle_ms: 2,
    }
}

#[test]
fn high_and_low_duty_are_permille() {
    let mut c = config();
    assert_eq!(c.period_us(false), 20_000);
    assert_eq!(c.period_us(true), 100_000);
    assert_eq!(c.on_us(false), 2_000);
    assert_eq!(c.on_us(true), 2_000);
    c.power_on_duty = 1;
    assert_eq!(c.on_us(false), 20);
    assert!(!c.can_sample(false, true));
    c.power_on_duty = 10;
    assert_eq!(c.on_us(false), 200);
    assert!(c.can_sample(false, true));
    c.power_on_duty = 1000;
    assert_eq!(c.on_us(false), c.period_us(false));
}

#[test]
fn waits_must_fit_both_modes() {
    let mut c = config();
    c.sample_settle_us = 1980;
    assert!(c.can_sample(false, true));
    c.sample_settle_us += 1;
    assert!(!c.can_sample(false, true));
    assert!(!c.can_sample(true, true));
    assert!(c.can_sample(false, false));
}

#[test]
fn deadzone_is_symmetric_continuous_and_handles_minimum() {
    for v in -100..=100 {
        assert_eq!(apply_deadzone(v, 100), 0);
    }
    assert_eq!(apply_deadzone(101, 100), 1);
    assert_eq!(apply_deadzone(-101, 100), -1);
    assert_eq!(apply_deadzone(i16::MIN, 0), i16::MIN);
    assert_eq!(apply_deadzone(i16::MIN, 100), -32668);
}

#[test]
fn inactivity_requires_continuous_centering_and_wakes_immediately() {
    let mut state = IdleTracker::default();
    state.observe(10_000, true);
    state.observe(1_209_999, true);
    assert!(!state.idle);
    state.observe(1_210_000, true);
    assert!(state.idle);
    state.observe(1_210_001, false);
    assert!(!state.idle);
    state.observe(2_000_000, true);
    state.observe(3_000_000, false);
    state.observe(4_000_000, true);
    assert!(!state.idle);
    state.observe(5_200_000, true);
    assert!(state.idle);
}

#[test]
fn a_held_off_center_axis_never_goes_idle() {
    let mut state = IdleTracker::default();
    for now in [0, 1_200_000, 10_000_000] {
        let centered = apply_deadzone(101, 100) == 0 && apply_deadzone(0, 100) == 0;
        state.observe(now, centered);
        assert!(!state.idle);
    }
}

#[test]
fn continuous_supply_follows_the_new_mode_on_both_transitions() {
    for (active_duty, idle_duty) in [(1000, 20), (100, 1000), (1000, 1000), (100, 20)] {
        let mut c = config();
        c.power_on_duty = active_duty;
        c.idle_power_on_duty = idle_duty;
        let mut state = IdleTracker::default();
        state.observe(0, true);
        assert_eq!(c.duty(state.idle) == 1000, active_duty == 1000);
        state.observe(1_200_000, true);
        assert!(state.idle);
        assert_eq!(c.duty(state.idle) == 1000, idle_duty == 1000);
        state.observe(1_200_001, false);
        assert!(!state.idle);
        assert_eq!(c.duty(state.idle) == 1000, active_duty == 1000);
    }
}

#[test]
fn fixed_bias_is_applied_in_the_existing_axis_units() {
    assert_eq!(adc_axis(1819).saturating_add(29130), 0);
    assert_eq!(adc_axis(-1), i16::MIN);
    assert_eq!(adc_axis(i16::MAX), 32766);
    assert_eq!(apply_deadzone(adc_axis(1869).saturating_add(29130), 100), 0);
}

fn motion(device_id: u8, x: i16, y: i16) -> PointingEvent {
    PointingEvent {
        device_id,
        axes: [
            AxisEvent { typ: AxisValType::Abs, axis: Axis::X, value: x },
            AxisEvent { typ: AxisValType::Abs, axis: Axis::Y, value: y },
            AxisEvent { typ: AxisValType::Rel, axis: Axis::Z, value: 0 },
        ],
    }
}

#[test]
fn position_becomes_rounded_motion() {
    let mut p = JoystickProcessor::<2>::new(3, [[80, 0], [0, -80]], [10, 0], 6);
    assert!(!p.on_pointing_event(&motion(4, 500, 500)));
    assert!(p.on_pointing_event(&motion(3, 790, 1000)));
    let pending = p.generate_report(0b1, Some(7)).unwrap();
    // (790 + 10) / 80 = 10, down to a multiple of 6; 1000 / -80 = -12.
    assert_eq!(pending.report.x, 6);
    assert_eq!(pending.report.y, -12);
    assert_eq!(pending.report.buttons, 0b1);
    assert!(pending.moving);
    assert_eq!(pending.epoch, 7);
}

#[test]
fn motion_is_held_within_a_report() {
    let mut p = JoystickProcessor::<2>::new(ALL_POINTING_DEVICES, [[1, 0], [0, 1]], [0, 0], 1);
    assert!(p.on_pointing_event(&motion(9, i16::MAX, i16::MIN)));
    let pending = p.generate_report(0, Some(0)).unwrap();
    assert_eq!((pending.report.x, pending.report.y), (127, -128));
}

#[test]
fn a_resting_stick_reports_once_per_connection() {
    let mut p = JoystickProcessor::<2>::new(0, [[1, 0], [0, 1]], [0, 0], 1).with_deadzone(50);
    p.on_pointing_event(&motion(0, 50, -50));
    let first = p.generate_report(0, Some(1)).unwrap();
    assert!(!first.moving);
    // Queued after the connection changed: not remembered.
    p.report_queued(first, 2);
    let again = p.generate_report(0, Some(1)).unwrap();
    p.report_queued(again, 1);
    assert_eq!(p.generate_report(0, Some(1)), None);
    assert!(p.generate_report(0, Some(2)).is_some());
    // With no host selected nothing is sent or remembered.
    assert_eq!(p.generate_report(0, None), None);
    assert!(p.generate_report(0, Some(1)).is_some());
}
