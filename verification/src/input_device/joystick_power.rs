//! Pure joystick timing, axis math, and idle report policy.

use vstd::prelude::*;

verus! {

/// How long a stick has to rest before it counts as idle.
pub const IDLE_AFTER_US: u64 = 1_200_000;

/// Time that the ADC itself takes after settling.
pub const ADC_TIME_US: u64 = 20;

/// Whether a report is sent to a host that has seen the stationary report `rest`
/// last.
pub open spec fn sends(rest: Option<(u32, u8)>, epoch: u32, buttons: u8, moving: bool) -> bool {
    moving || rest != Some((epoch, buttons))
}

/// The stationary report that a host has seen last after a report went out.
pub open spec fn recorded(epoch: u32, buttons: u8, moving: bool) -> Option<(u32, u8)> {
    if moving {
        None
    } else {
        Some((epoch, buttons))
    }
}

/// Suppress repeated stationary reports, never repeated relative movement.
#[derive(Clone, Copy, Debug)]
pub struct IdleReportFilter {
    last_rest: Option<(u32, u8)>,
}

impl Default for IdleReportFilter {
    fn default() -> (r: Self)
        ensures
            r.rest() is None,
    {
        IdleReportFilter { last_rest: None }
    }
}

impl IdleReportFilter {
    /// The stationary report that the host has seen last, if it has seen nothing
    /// else since: its connection and its buttons.
    pub closed spec fn rest(&self) -> Option<(u32, u8)> {
        self.last_rest
    }

    pub fn should_send(&self, connection_epoch: u32, buttons: u8, moving: bool) -> (r: bool)
        ensures
            r == sends(self.rest(), connection_epoch, buttons, moving),
    {
        if moving {
            return true;
        }
        match self.last_rest {
            Some((epoch, held)) => epoch != connection_epoch || held != buttons,
            None => true,
        }
    }

    /// Record only after enqueueing, with no intervening connection transition.
    pub fn record_queued(&mut self, connection_epoch: u32, buttons: u8, moving: bool)
        ensures
            final(self).rest() == recorded(connection_epoch, buttons, moving),
    {
        self.last_rest = if moving {
            None
        } else {
            Some((connection_epoch, buttons))
        };
    }
}

/// Timing of a joystick whose supply can be switched. Duties are in permille.
#[derive(Clone, Copy, Debug, PartialEq, Eq, Structural)]
pub struct JoystickPowerConfig {
    pub polling_rate_hz: u16,
    pub power_on_duty: u16,
    pub idle_polling_rate_hz: u16,
    pub idle_power_on_duty: u16,
    pub sample_settle_us: u32,
    pub boot_settle_ms: u32,
}

/// The period of a rate in microseconds; a rate of zero counts as one.
pub open spec fn period_of(hz: u16) -> u64 {
    (1_000_000int / if hz == 0 {
        1int
    } else {
        hz as int
    }) as u64
}

/// The period of a rate in microseconds; a rate of zero counts as one.
pub fn period_us_of(hz: u16) -> (r: u64)
    ensures
        r == period_of(hz),
        0 < r <= 1_000_000,
{
    let rate: u64 = if hz == 0 {
        1
    } else {
        hz as u64
    };
    proof {
        assert(0 < 1_000_000int / rate as int <= 1_000_000) by (nonlinear_arith)
            requires
                1 <= rate <= 65535,
        ;
    }
    1_000_000 / rate
}

impl JoystickPowerConfig {
    pub open spec fn spec_period_us(&self, idle: bool) -> u64 {
        period_of(
            if idle {
                self.idle_polling_rate_hz
            } else {
                self.polling_rate_hz
            },
        )
    }

    pub open spec fn spec_duty(&self, idle: bool) -> u16 {
        if idle {
            self.idle_power_on_duty
        } else {
            self.power_on_duty
        }
    }

    /// How long the supply is on in each period.
    pub open spec fn spec_on_us(&self, idle: bool) -> u64 {
        (self.spec_period_us(idle) * self.spec_duty(idle) / 1000) as u64
    }

    /// The time that settling and sampling may take.
    pub open spec fn spec_window_us(&self, idle: bool, switched: bool) -> u64 {
        if switched {
            self.spec_on_us(idle)
        } else {
            self.spec_period_us(idle)
        }
    }

    pub fn period_us(&self, idle: bool) -> (r: u64)
        ensures
            r == self.spec_period_us(idle),
            0 < r <= 1_000_000,
    {
        let hz: u16 = if idle {
            self.idle_polling_rate_hz
        } else {
            self.polling_rate_hz
        };
        period_us_of(hz)
    }

    pub fn duty(&self, idle: bool) -> (r: u16)
        ensures
            r == self.spec_duty(idle),
    {
        if idle {
            self.idle_power_on_duty
        } else {
            self.power_on_duty
        }
    }

    pub fn on_us(&self, idle: bool) -> (r: u64)
        ensures
            r == self.spec_on_us(idle),
            r <= 65_535_000,
    {
        let period: u64 = self.period_us(idle);
        let duty: u64 = self.duty(idle) as u64;
        proof {
            assert(period * duty <= 65_535_000_000) by (nonlinear_arith)
                requires
                    period <= 1_000_000,
                    duty <= 65_535,
            ;
        }
        period * duty / 1000
    }

    pub fn window_us(&self, idle: bool, switched: bool) -> (r: u64)
        ensures
            r == self.spec_window_us(idle, switched),
            r <= 65_535_000,
    {
        if switched {
            self.on_us(idle)
        } else {
            self.period_us(idle)
        }
    }

    pub fn can_sample(&self, idle: bool, switched: bool) -> (r: bool)
        ensures
            r == (self.sample_settle_us + ADC_TIME_US <= self.spec_window_us(idle, switched)),
    {
        let budget: u64 = self.window_us(idle, switched);
        self.sample_settle_us as u64 + ADC_TIME_US <= budget
    }
}

/// Tells a stick that rests from one that does not.
#[derive(Clone, Copy, Debug)]
pub struct IdleTracker {
    pub centered_since_us: Option<u64>,
    pub idle: bool,
}

impl Default for IdleTracker {
    fn default() -> (r: Self)
        ensures
            r.centered_since_us is None,
            !r.idle,
    {
        IdleTracker { centered_since_us: None, idle: false }
    }
}

impl IdleTracker {
    /// When the current rest began, were the stick centered at `now_us`.
    pub open spec fn since(&self, now_us: u64) -> u64 {
        match self.centered_since_us {
            Some(since) => since,
            None => now_us,
        }
    }

    /// The tracker after an observation.
    pub open spec fn observed(self, now_us: u64, centered: bool) -> IdleTracker {
        if centered {
            IdleTracker {
                centered_since_us: Some(self.since(now_us)),
                idle: now_us - self.since(now_us) >= IDLE_AFTER_US,
            }
        } else {
            IdleTracker { centered_since_us: None, idle: false }
        }
    }

    pub fn observe(&mut self, now_us: u64, centered: bool)
        ensures
            *final(self) == old(self).observed(now_us, centered),
    {
        if !centered {
            self.centered_since_us = None;
            self.idle = false;
        } else {
            let since: u64 = match self.centered_since_us {
                Some(since) => since,
                None => now_us,
            };
            self.centered_since_us = Some(since);
            self.idle = now_us >= since && now_us - since >= IDLE_AFTER_US;
        }
    }
}

/// A number held within a range.
pub open spec fn clamped(x: int, low: int, high: int) -> int {
    if x < low {
        low
    } else if x > high {
        high
    } else {
        x
    }
}

pub open spec fn abs(x: int) -> nat {
    if x < 0 {
        (-x) as nat
    } else {
        x as nat
    }
}

/// A 16-bit number held within its range.
pub(crate) fn clamp_i16(x: i32) -> (r: i16)
    ensures
        r == clamped(x as int, i16::MIN as int, i16::MAX as int),
{
    if x < -32768 {
        -32768
    } else if x > 32767 {
        32767
    } else {
        x as i16
    }
}

/// The axis value of an ADC reading.
pub open spec fn axis_of(raw: i16) -> i16 {
    clamped((raw - 16384) * 2, i16::MIN as int, i16::MAX as int) as i16
}

/// The ADC-to-axis mapping, without overflowing on negative ADC noise.
pub fn adc_axis(raw: i16) -> (r: i16)
    ensures
        r == axis_of(raw),
{
    clamp_i16((raw as i32 - 16384) * 2)
}

/// An axis value without the dead zone around its center.
pub open spec fn beyond_deadzone(value: i16, deadzone: u16) -> int {
    if value > deadzone {
        value - deadzone
    } else if -value > deadzone {
        value + deadzone
    } else {
        0
    }
}

/// Square deadzone: each axis is independently suppressed and remapped
/// continuously.
pub fn apply_deadzone(value: i16, deadzone: u16) -> (r: i16)
    ensures
        r == beyond_deadzone(value, deadzone),
{
    let v: i32 = value as i32;
    let d: i32 = deadzone as i32;
    if v > d {
        (v - d) as i16
    } else if -v > d {
        (v + d) as i16
    } else {
        0
    }
}

// ---------------------------------------------------------------------------
// Laws
// ---------------------------------------------------------------------------

/// After a report went out, the next one is held back only where both are
/// stationary, with the same buttons, on the same connection.
pub proof fn law_only_a_repeated_rest_is_held_back(
    epoch: u32,
    buttons: u8,
    moving: bool,
    next_epoch: u32,
    next_buttons: u8,
    next_moving: bool,
)
    ensures
        sends(recorded(epoch, buttons, moving), next_epoch, next_buttons, next_moving) == !(!moving
            && !next_moving && next_epoch == epoch && next_buttons == buttons),
{
}

/// The dead zone is symmetric and continuous: opposite values stay opposite, and
/// neighbours stay at most one apart.
pub proof fn law_deadzone_is_symmetric_and_continuous(value: i16, deadzone: u16)
    ensures
        value > i16::MIN ==> beyond_deadzone((-value) as i16, deadzone) == -beyond_deadzone(
            value,
            deadzone,
        ),
        value < i16::MAX ==> 0 <= beyond_deadzone((value + 1) as i16, deadzone) - beyond_deadzone(
            value,
            deadzone,
        ) <= 1,
        abs(value as int) <= deadzone ==> beyond_deadzone(value, deadzone) == 0,
        abs(value as int) >= deadzone ==> abs(beyond_deadzone(value, deadzone)) == abs(
            value as int,
        ) - deadzone,
{
}

/// Full duty keeps the supply on for the whole period, and no duty up to it goes
/// beyond the period.
pub proof fn law_duty_is_a_share_of_the_period(c: JoystickPowerConfig, idle: bool)
    ensures
        c.spec_duty(idle) == 1000 ==> c.spec_on_us(idle) == c.spec_period_us(idle),
        c.spec_duty(idle) <= 1000 ==> c.spec_on_us(idle) <= c.spec_period_us(idle),
{
    let p = c.spec_period_us(idle) as int;
    let d = c.spec_duty(idle) as int;
    assert(d <= 1000 ==> p * d <= p * 1000) by (nonlinear_arith)
        requires
            p >= 0,
    ;
    assert(p * 1000 / 1000 == p);
    assert(d == 1000 ==> p * d == p * 1000);
    assert(d <= 1000 ==> p * d / 1000 <= p) by (nonlinear_arith)
        requires
            d <= 1000 ==> p * d <= p * 1000,
            p >= 0,
    ;
    assert(0 <= p * d) by (nonlinear_arith)
        requires
            p >= 0,
            d >= 0,
    ;
}

/// A fresh idle tracker after observations at given times.
pub open spec fn tracker_after(observations: Seq<(u64, bool)>) -> IdleTracker
    decreases observations.len(),
{
    if observations.len() == 0 {
        IdleTracker { centered_since_us: None, idle: false }
    } else {
        let (now, centered) = observations.last();
        tracker_after(observations.drop_last()).observed(now, centered)
    }
}

/// Idle means rest without a break: whenever a tracker is idle, there is an
/// observation at least [`IDLE_AFTER_US`] before the last one from which on all
/// were centered. One that is not centered ends it at once.
pub proof fn law_idle_needs_an_unbroken_rest(observations: Seq<(u64, bool)>)
    ensures
        tracker_after(observations).idle ==> exists|k: int| #[trigger]
            rests_from(observations, k) && observations.last().0 - observations[k].0
                >= IDLE_AFTER_US,
        observations.len() > 0 && !observations.last().1 ==> !tracker_after(observations).idle,
{
    lemma_tracker_since(observations);
}

/// All observations from `k` on are centered.
pub open spec fn rests_from(observations: Seq<(u64, bool)>, k: int) -> bool {
    &&& 0 <= k < observations.len()
    &&& forall|i: int| k <= i < observations.len() ==> (#[trigger] observations[i]).1
}

proof fn lemma_tracker_since(observations: Seq<(u64, bool)>)
    ensures
        tracker_after(observations).centered_since_us matches Some(s) ==> exists|k: int| #[trigger]
            rests_from(observations, k) && observations[k].0 == s,
    decreases observations.len(),
{
    if observations.len() > 0 {
        let p = observations.drop_last();
        lemma_tracker_since(p);
        let n = observations.len() - 1;
        if observations.last().1 {
            match tracker_after(p).centered_since_us {
                Some(s) => {
                    let k = choose|k: int| #[trigger] rests_from(p, k) && p[k].0 == s;
                    assert forall|i: int| k <= i < observations.len() implies (
                    #[trigger] observations[i]).1 by {
                        if i < n {
                            assert(p[i].1);
                        }
                    }
                    assert(rests_from(observations, k));
                    assert(observations[k] == p[k]);
                },
                None => {
                    assert(rests_from(observations, n));
                },
            }
        }
    }
}

/// A stick is idle once it has rested for 1.2 seconds without a break, not before; the first
/// rest counts from when it was seen, and motion starts the count afresh.
pub proof fn law_a_stick_idles_after_a_full_rest(
    tracker: IdleTracker,
    first_us: u64,
    now_us: u64,
    moved_us: u64,
)
    ensures
        ({
            let moved = tracker.observed(moved_us, false);
            let rested = moved.observed(first_us, true);
            let later = rested.observed(now_us, true);
            &&& !moved.idle
            &&& !rested.idle
            &&& later.idle <==> now_us >= first_us + 1_200_000
            &&& later.centered_since_us == Some(first_us)
            &&& later.observed(now_us, true).centered_since_us == Some(first_us)
        }),
{
}

/// A period is the longest span of whole microseconds that fits its rate into a second; a rate
/// of zero counts as one.
pub proof fn law_a_rate_fits_its_periods_into_a_second(hz: u16)
    ensures
        hz > 0 ==> hz * period_of(hz) <= 1_000_000 < hz * (period_of(hz) + 1),
        hz == 0 ==> period_of(hz) == 1_000_000,
{
    let h = if hz == 0 {
        1int
    } else {
        hz as int
    };
    let p = 1_000_000int / h;
    vstd::arithmetic::div_mod::lemma_fundamental_div_mod(1_000_000, h);
    assert(0 <= p <= 1_000_000) by (nonlinear_arith)
        requires
            h > 0,
            1_000_000 == h * p + 1_000_000int % h,
            0 <= 1_000_000int % h < h,
    ;
    assert(h * (p + 1) == h * p + h) by (nonlinear_arith);
}

/// The supply is on for the duty's share of the period, in whole microseconds; the rates and
/// duties of an idle stick are its own.
pub proof fn law_the_supply_is_on_for_its_duty(c: JoystickPowerConfig, idle: bool)
    ensures
        ({
            let (hz, duty) = if idle {
                (c.idle_polling_rate_hz, c.idle_power_on_duty)
            } else {
                (c.polling_rate_hz, c.power_on_duty)
            };
            let on = c.spec_window_us(idle, true);
            &&& c.spec_window_us(idle, false) == period_of(hz)
            &&& 1000 * on <= period_of(hz) * duty < 1000 * (on + 1)
        }),
{
    let hz = if idle {
        c.idle_polling_rate_hz
    } else {
        c.polling_rate_hz
    };
    let p = period_of(hz) as int;
    let d = c.spec_duty(idle) as int;
    law_a_rate_fits_its_periods_into_a_second(hz);
    assert(p <= 1_000_000) by (nonlinear_arith)
        requires
            hz > 0 ==> hz * p <= 1_000_000,
            hz == 0 ==> p == 1_000_000,
            p >= 0,
            hz >= 0,
    ;
    assert(0 <= p * d <= 1_000_000 * 65_535) by (nonlinear_arith)
        requires
            0 <= p <= 1_000_000,
            0 <= d <= 65_535,
    ;
}

/// An ADC reading in the middle is at rest, each step of it moves the axis by two, and what
/// lies beyond the axis is held at its end.
pub proof fn law_the_axis_is_centred_on_the_middle_reading(raw: i16)
    ensures
        0 <= raw ==> axis_of(raw) == 2 * raw - 32768,
        raw < 0 ==> axis_of(raw) == -32768,
{
}

} // verus!
