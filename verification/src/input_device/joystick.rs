//! Joysticks as mice.

use vstd::prelude::*;
pub use crate::input_device::joystick_power::{
    adc_axis, apply_deadzone, IdleReportFilter, IdleTracker,
};
use crate::input_device::joystick_power::{
    abs, beyond_deadzone, clamp_i16, clamped, period_of, period_us_of,
};
use crate::types::{MouseReport, PointingEvent};

verus! {

/// The device id that accepts events of every pointing device.
pub const ALL_POINTING_DEVICES: u8 = 255;

/// Timing of a joystick.
#[derive(Clone, Copy, Debug, PartialEq, Eq, Structural)]
pub struct JoystickPowerConfig {
    pub polling_rate_hz: u16,
    pub idle_polling_rate_hz: u16,
    pub sample_settle_us: u32,
    pub boot_settle_ms: u32,
}

impl JoystickPowerConfig {
    pub fn period_us(&self, idle: bool) -> (r: u64)
        ensures
            r == period_of(
                if idle {
                    self.idle_polling_rate_hz
                } else {
                    self.polling_rate_hz
                },
            ),
    {
        let hz: u16 = if idle {
            self.idle_polling_rate_hz
        } else {
            self.polling_rate_hz
        };
        period_us_of(hz)
    }
}

/// Division that rounds towards zero, with the one quotient that does not fit
/// held at the maximum.
pub open spec fn weighted(value: i16, weight: i16) -> int
    recommends
        weight != 0,
{
    let q = (abs(value as int) / abs(weight as int)) as int;
    clamped(
        if (value < 0) == (weight < 0) {
            q
        } else {
            -q
        },
        i16::MIN as int,
        i16::MAX as int,
    )
}

/// The step that reports are rounded to: the resolution as a signed number, its
/// sign dropped.
pub open spec fn step_of(resolution: u16) -> nat {
    if resolution <= 32767 {
        resolution as nat
    } else {
        (65536 - resolution) as nat
    }
}

/// A value rounded towards zero to a multiple of the step.
pub open spec fn rounded(value: int, step: nat) -> int
    recommends
        step > 0,
{
    if value < 0 {
        -(abs(value) - abs(value) % step)
    } else {
        abs(value) - abs(value) % step
    }
}

/// A row of the transform applied to the axis values: each value divided by its
/// weight (none for a weight of zero), summed up and rounded after every summand.
pub open spec fn row_value(weights: Seq<i16>, values: Seq<i16>, step: nat) -> int
    decreases weights.len(),
{
    if weights.len() == 0 || weights.len() != values.len() {
        0
    } else {
        let rest = row_value(weights.drop_last(), values.drop_last(), step);
        if weights.last() == 0 {
            rest
        } else {
            rounded(
                clamped(
                    rest + weighted(values.last(), weights.last()),
                    i16::MIN as int,
                    i16::MAX as int,
                ),
                step,
            )
        }
    }
}

/// The axis value that enters the transform.
pub open spec fn corrected(raw: i16, bias: i16, deadzone: u16) -> i16 {
    beyond_deadzone(
        clamped(raw + bias, i16::MIN as int, i16::MAX as int) as i16,
        deadzone,
    ) as i16
}

fn divide(value: i16, weight: i16) -> (r: i16)
    requires
        weight != 0,
    ensures
        r == weighted(value, weight),
{
    let v: u32 = if value < 0 {
        (-(value as i32)) as u32
    } else {
        value as u32
    };
    let w: u32 = if weight < 0 {
        (-(weight as i32)) as u32
    } else {
        weight as u32
    };
    proof {
        assert(0 <= v as int / w as int <= v) by (nonlinear_arith)
            requires
                w > 0,
                v >= 0,
        ;
    }
    let q: i32 = (v / w) as i32;
    if (value < 0) == (weight < 0) {
        clamp_i16(q)
    } else {
        clamp_i16(-q)
    }
}

fn round_to(value: i16, step: u32) -> (r: i16)
    requires
        0 < step <= 65535,
    ensures
        r == rounded(value as int, step as nat),
{
    let v: u32 = if value < 0 {
        (-(value as i32)) as u32
    } else {
        value as u32
    };
    proof {
        assert(0 <= v as int % step as int <= v) by (nonlinear_arith)
            requires
                step > 0,
                v >= 0,
        ;
    }
    let m: i32 = (v - v % step) as i32;
    if value < 0 {
        (-m) as i16
    } else {
        m as i16
    }
}

fn clamp_i8(x: i16) -> (r: i8)
    ensures
        r == clamped(x as int, i8::MIN as int, i8::MAX as int),
{
    if x < -128 {
        -128
    } else if x > 127 {
        127
    } else {
        x as i8
    }
}

/// A report that waits for its place in the host's queue.
#[derive(Clone, Copy, Debug, PartialEq, Eq, Structural)]
pub struct PendingReport {
    pub report: MouseReport,
    /// The connection it is meant for.
    pub epoch: u32,
    pub moving: bool,
}

/// Turns joystick positions into mouse motion.
pub struct JoystickProcessor<const N: usize> {
    /// Only process events from this device id. Use [`ALL_POINTING_DEVICES`] to
    /// accept all.
    pub device_id: u8,
    pub transform: [[i16; N]; N],
    pub bias: [i16; N],
    pub record: [i16; N],
    pub resolution: u16,
    pub deadzone: u16,
    pub idle_report_filter: IdleReportFilter,
}

impl<const N: usize> JoystickProcessor<N> {
    pub fn new(device_id: u8, transform: [[i16; N]; N], bias: [i16; N], resolution: u16) -> (r:
        Self)
        ensures
            r.device_id == device_id,
            r.transform == transform,
            r.bias == bias,
            r.resolution == resolution,
            r.deadzone == 0,
            r.idle_report_filter.rest() is None,
            forall|i: int| 0 <= i < N ==> r.record@[i] == 0,
    {
        let mut record = bias;
        let mut i: usize = 0;
        while i < N
            invariant
                i <= N,
                forall|j: int| 0 <= j < i ==> record@[j] == 0,
            decreases N - i,
        {
            record[i] = 0;
            i = i + 1;
        }
        JoystickProcessor {
            device_id,
            transform,
            bias,
            record,
            resolution,
            deadzone: 0,
            idle_report_filter: IdleReportFilter::default(),
        }
    }

    pub fn with_deadzone(self, deadzone: u16) -> (r: Self)
        ensures
            r == (JoystickProcessor { deadzone, ..self }),
    {
        JoystickProcessor { deadzone, ..self }
    }

    /// Whether an event is for this processor.
    pub open spec fn accepts(&self, event: PointingEvent) -> bool {
        self.device_id == ALL_POINTING_DEVICES || event.device_id == self.device_id
    }

    /// Takes in the axis values of an event, if it is for this processor: the
    /// first of them, as many as there are on both sides.
    pub fn on_pointing_event(&mut self, event: &PointingEvent) -> (r: bool)
        ensures
            r == old(self).accepts(*event),
            *final(self) == (JoystickProcessor { record: final(self).record, ..*old(self) }),
            forall|i: int|
                0 <= i < N ==> #[trigger] final(self).record@[i] == if r && i < 3 {
                    event.axes@[i].value
                } else {
                    old(self).record@[i]
                },
    {
        if self.device_id != ALL_POINTING_DEVICES && event.device_id != self.device_id {
            return false;
        }
        let mut i: usize = 0;
        while i < N && i < 3
            invariant
                i <= N,
                i <= 3,
                *self == (JoystickProcessor { record: self.record, ..*old(self) }),
                forall|j: int|
                    0 <= j < N ==> #[trigger] self.record@[j] == if j < i {
                        event.axes@[j].value
                    } else {
                        old(self).record@[j]
                    },
            decreases N - i,
        {
            self.record[i] = event.axes[i].value;
            i = i + 1;
        }
        true
    }

    /// The axis values after bias and dead zone.
    pub open spec fn values(&self) -> Seq<i16> {
        Seq::new(
            N as nat,
            |i: int| corrected(self.record@[i], self.bias@[i], self.deadzone),
        )
    }

    /// The report value of an axis.
    pub open spec fn axis_value(&self, axis: int) -> int {
        row_value(self.transform@[axis]@, self.values(), step_of(self.resolution))
    }

    /// The report of the current position with the given buttons.
    pub open spec fn report(&self, buttons: u8) -> MouseReport {
        MouseReport {
            buttons,
            x: clamped(self.axis_value(0), i8::MIN as int, i8::MAX as int) as i8,
            y: clamped(self.axis_value(1), i8::MIN as int, i8::MAX as int) as i8,
            wheel: 0,
            pan: 0,
        }
    }

    fn row(&self, axis: usize, values: &[i16; N]) -> (r: i16)
        requires
            axis < N,
            self.resolution != 0,
        ensures
            r == row_value(self.transform@[axis as int]@, values@, step_of(self.resolution)),
    {
        let step: u32 = if self.resolution <= 32767 {
            self.resolution as u32
        } else {
            65536 - self.resolution as u32
        };
        let ghost weights = self.transform@[axis as int]@;
        let mut rep: i16 = 0;
        let mut i: usize = 0;
        while i < N
            invariant
                i <= N,
                axis < N,
                0 < step <= 65535,
                step == step_of(self.resolution),
                weights == self.transform@[axis as int]@,
                rep == row_value(
                    weights.subrange(0, i as int),
                    values@.subrange(0, i as int),
                    step as nat,
                ),
            decreases N - i,
        {
            let w: i16 = self.transform[axis][i];
            let v: i16 = values[i];
            proof {
                let p = weights.subrange(0, i + 1);
                let q = values@.subrange(0, i + 1);
                assert(p.drop_last() =~= weights.subrange(0, i as int));
                assert(q.drop_last() =~= values@.subrange(0, i as int));
                assert(p.last() == w);
                assert(q.last() == v);
            }
            if w != 0 {
                let sum: i16 = clamp_i16(rep as i32 + divide(v, w) as i32);
                rep = round_to(sum, step);
            }
            i = i + 1;
        }
        assert(weights.subrange(0, i as int) =~= weights);
        assert(values@.subrange(0, i as int) =~= values@);
        rep
    }

    /// The report to send for the current position, if there is one to send.
    ///
    /// `connection` is the epoch of the connection to the host, `None` while no
    /// host is selected: reports dropped then are not remembered. The position
    /// itself is replaced by its corrected values.
    pub fn generate_report(&mut self, buttons: u8, connection: Option<u32>) -> (r: Option<
        PendingReport,
    >)
        requires
            N >= 2,
            old(self).resolution != 0,
        ensures
            final(self).record@ == old(self).values(),
            ({
                let report = old(self).report(buttons);
                let moving = report.x != 0 || report.y != 0;
                let rest = old(self).idle_report_filter.rest();
                &&& r == match connection {
                    None => None,
                    Some(epoch) => if moving || rest != Some((epoch, buttons)) {
                        Some(PendingReport { report, epoch, moving })
                    } else {
                        None
                    },
                }
                &&& final(self).idle_report_filter.rest() == match connection {
                    None => None,
                    Some(_) => rest,
                }
            }),
            *final(self) == (JoystickProcessor {
                record: final(self).record,
                idle_report_filter: final(self).idle_report_filter,
                ..*old(self)
            }),
    {
        let mut i: usize = 0;
        while i < N
            invariant
                i <= N,
                *self == (JoystickProcessor { record: self.record, ..*old(self) }),
                forall|j: int| 0 <= j < i ==> self.record@[j] == old(self).values()[j],
                forall|j: int| i <= j < N ==> self.record@[j] == old(self).record@[j],
            decreases N - i,
        {
            let sum: i16 = clamp_i16(self.record[i] as i32 + self.bias[i] as i32);
            self.record[i] = apply_deadzone(sum, self.deadzone);
            i = i + 1;
        }
        assert(self.record@ =~= old(self).values());
        let x: i8 = clamp_i8(self.row(0, &self.record));
        let y: i8 = clamp_i8(self.row(1, &self.record));
        let report = MouseReport { buttons, x, y, wheel: 0, pan: 0 };
        let moving = x != 0 || y != 0;
        match connection {
            None => {
                self.idle_report_filter = IdleReportFilter::default();
                None
            },
            Some(epoch) => {
                if self.idle_report_filter.should_send(epoch, buttons, moving) {
                    Some(PendingReport { report, epoch, moving })
                } else {
                    None
                }
            },
        }
    }

    /// A report went into the queue. It is remembered only where the connection
    /// is still the one it was meant for: a change can abort queueing while the
    /// report waits.
    pub fn report_queued(&mut self, pending: PendingReport, epoch_now: u32)
        ensures
            final(self).idle_report_filter.rest() == if epoch_now != pending.epoch {
                old(self).idle_report_filter.rest()
            } else if pending.moving {
                None
            } else {
                Some((pending.epoch, pending.report.buttons))
            },
            *final(self) == (JoystickProcessor {
                idle_report_filter: final(self).idle_report_filter,
                ..*old(self)
            }),
    {
        if epoch_now == pending.epoch {
            self.idle_report_filter.record_queued(
                pending.epoch,
                pending.report.buttons,
                pending.moving,
            );
        }
    }
}

// ---------------------------------------------------------------------------
// Laws
// ---------------------------------------------------------------------------

proof fn lemma_quotient(a: int, b: int)
    requires
        a >= 0,
        b > 0,
    ensures
        0 <= a / b <= a,
        0 <= a - b * (a / b) < b,
        a % b == a - b * (a / b),
{
    vstd::arithmetic::div_mod::lemma_fundamental_div_mod(a, b);
    vstd::arithmetic::div_mod::lemma_div_nonincreasing(a, b);
    vstd::arithmetic::div_mod::lemma_div_pos_is_pos(a, b);
}

/// A weighted value is the quotient of the value by its weight, rounded towards zero: what the
/// division leaves over is smaller than the weight and has the sign of the value. The one
/// quotient that does not fit is held at the maximum.
pub proof fn law_a_weight_divides(value: i16, weight: i16)
    requires
        weight != 0,
    ensures
        value == i16::MIN && weight == -1 ==> weighted(value, weight) == 32767,
        !(value == i16::MIN && weight == -1) ==> {
            let rest = value - weight * weighted(value, weight);
            &&& -32768 <= weighted(value, weight) <= 32767
            &&& weight > 0 ==> -weight < rest < weight
            &&& weight < 0 ==> weight < rest < -weight
            &&& rest > 0 ==> value > 0
            &&& rest < 0 ==> value < 0
        },
{
    let v = abs(value as int) as int;
    let w = abs(weight as int) as int;
    lemma_quotient(v, w);
    let q = v / w;
    if weight == -1 {
        assert(q == v) by (nonlinear_arith)
            requires
                0 <= v - 1 * q < 1,
        ;
    }
    if v == 32768 && w >= 2 {
        assert(q <= 16384) by (nonlinear_arith)
            requires
                v == 32768,
                w >= 2,
                0 <= v - w * q,
        ;
    }
    assert(weight as int * q == w * q || weight as int * q == -(w * q)) by (nonlinear_arith)
        requires
            weight as int == w || weight as int == -w,
    ;
    assert(weight as int * (-q) == -(weight as int * q)) by (nonlinear_arith);
    assert(weight >= 0 ==> weight as int * q == w * q) by (nonlinear_arith)
        requires
            weight >= 0 ==> weight as int == w,
    ;
    assert(weight < 0 ==> weight as int * q == -(w * q)) by (nonlinear_arith)
        requires
            weight < 0 ==> weight as int == -w,
    ;
}

/// Pushing a stick the other way turns its weighted value round, and so does turning its
/// weight round; the lowest value, which has no opposite, is left out.
pub proof fn law_opposite_values_move_oppositely(value: i16, weight: i16)
    requires
        weight != 0,
        value != i16::MIN,
    ensures
        weighted((-value) as i16, weight) == -weighted(value, weight),
        weight != i16::MIN ==> weighted(value, (-weight) as i16) == -weighted(value, weight),
{
    lemma_quotient(abs(value as int) as int, abs(weight as int) as int);
    lemma_quotient(0, abs(weight as int) as int);
    assert(0int / abs(weight as int) as int == 0) by (nonlinear_arith)
        requires
            abs(weight as int) > 0,
    ;
}

/// The step of a resolution is the size of its value as a signed number: a resolution and its
/// complement have the same step, and small ones are their own.
pub proof fn law_a_resolution_and_its_complement_agree(resolution: u16)
    ensures
        resolution < 32768 ==> step_of(resolution) == resolution,
        resolution > 0 ==> step_of(resolution) == step_of((65536 - resolution) as u16) && 0
            < step_of(resolution) <= 32768,
{
}

/// Rounding takes a value to the nearest multiple of the step towards zero: opposite values
/// are rounded oppositely, and a multiple stays what it is.
pub proof fn law_rounding_goes_towards_zero(value: int, step: nat, n: int)
    requires
        step > 0,
    ensures
        exists|k: int| rounded(value, step) == #[trigger] (step * k),
        value >= 0 ==> 0 <= rounded(value, step) <= value < rounded(value, step) + step,
        value <= 0 ==> rounded(value, step) - step < value <= rounded(value, step) <= 0,
        rounded(-value, step) == -rounded(value, step),
        rounded(step * n, step) == step * n,
{
    let v = abs(value) as int;
    let s = step as int;
    lemma_quotient(v, s);
    let k = v / s;
    assert(v - v % s == s * k);
    assert(s * (-k) == -(s * k)) by (nonlinear_arith);
    if value >= 0 {
        assert(rounded(value, step) == step * k);
    } else {
        assert(rounded(value, step) == step * (-k));
    }
    let m = step * n;
    let a = abs(m) as int;
    if n >= 0 {
        assert(m >= 0) by (nonlinear_arith)
            requires
                m == s * n,
                n >= 0,
                s > 0,
        ;
        vstd::arithmetic::div_mod::lemma_mod_multiples_basic(n, s);
        assert(m == n * s) by (nonlinear_arith)
            requires
                m == s * n,
        ;
    } else {
        assert(m < 0) by (nonlinear_arith)
            requires
                m == s * n,
                n < 0,
                s > 0,
        ;
        vstd::arithmetic::div_mod::lemma_mod_multiples_basic(-n, s);
        assert(a == (-n) * s) by (nonlinear_arith)
            requires
                m == s * n,
                a == -m,
        ;
    }
}

/// An axis with a weight of zero has no part in a row. Any other adds its weighted value to
/// the sum of those before it; the sum is held within 16 bits and rounded to the step towards
/// zero. A row of no axes is at rest.
pub proof fn law_a_row_adds_up_its_axes(
    weights: Seq<i16>,
    values: Seq<i16>,
    weight: i16,
    value: i16,
    step: nat,
)
    requires
        weights.len() == values.len(),
        step > 0,
    ensures
        row_value(Seq::empty(), Seq::empty(), step) == 0,
        row_value(weights.push(0), values.push(value), step) == row_value(weights, values, step),
        weight != 0 ==> {
            let sum = row_value(weights, values, step) + weighted(value, weight);
            let row = row_value(weights.push(weight), values.push(value), step);
            &&& exists|k: int| row == #[trigger] (step * k)
            &&& 0 <= sum <= 32767 ==> row <= sum < row + step && row >= 0
            &&& sum > 32767 ==> row <= 32767 < row + step && row >= 0
            &&& -32768 <= sum <= 0 ==> row - step < sum <= row && row <= 0
            &&& sum < -32768 ==> row - step < -32768 <= row && row <= 0
        },
{
    let p = weights.push(weight);
    let q = values.push(value);
    assert(p.drop_last() =~= weights);
    assert(q.drop_last() =~= values);
    assert(weights.push(0).drop_last() =~= weights);
    if weight != 0 {
        let sum = row_value(weights, values, step) + weighted(value, weight);
        law_rounding_goes_towards_zero(clamped(sum, -32768, 32767), step, 0);
    }
}

/// A stick at rest stays at rest: within the dead zone around the bias an axis is zero, and
/// beyond it grows by one with each step of the stick.
pub proof fn law_the_correction_is_centred_on_the_bias(raw: i16, bias: i16, deadzone: u16)
    ensures
        -deadzone <= raw + bias <= deadzone ==> corrected(raw, bias, deadzone) == 0,
        deadzone < raw + bias <= 32767 ==> corrected(raw, bias, deadzone) == raw + bias - deadzone,
        -32768 <= raw + bias < -deadzone ==> corrected(raw, bias, deadzone) == raw + bias
            + deadzone,
        raw + bias > 32767 && deadzone <= 32767 ==> corrected(raw, bias, deadzone) == 32767
            - deadzone,
        raw + bias < -32768 && deadzone <= 32768 ==> corrected(raw, bias, deadzone) == deadzone
            - 32768,
{
}

/// A report has the first axis as its x and the second as its y, each as near as a byte comes,
/// the buttons that it was asked for, and nothing else.
pub proof fn law_a_report_has_the_first_two_axes<const N: usize>(
    p: JoystickProcessor<N>,
    q: JoystickProcessor<N>,
    buttons: u8,
    i: int,
)
    requires
        N >= 2,
    ensures
        ({
            let r = p.report(buttons);
            let x = row_value(p.transform@[0]@, p.values(), step_of(p.resolution));
            let y = row_value(p.transform@[1]@, p.values(), step_of(p.resolution));
            &&& r.buttons == buttons && r.wheel == 0 && r.pan == 0
            &&& -128 <= x <= 127 ==> r.x == x
            &&& x > 127 ==> r.x == 127
            &&& x < -128 ==> r.x == -128
            &&& -128 <= y <= 127 ==> r.y == y
            &&& y > 127 ==> r.y == 127
            &&& y < -128 ==> r.y == -128
        }),
        p.values().len() == N,
        0 <= i < N ==> p.values()[i] == corrected(p.record@[i], p.bias@[i], p.deadzone),
        p.record@ == q.record@ && p.bias@ == q.bias@ && p.deadzone == q.deadzone && p.resolution
            == q.resolution ==> {
            &&& p.transform@[0]@ == q.transform@[0]@ ==> p.report(buttons).x == q.report(buttons).x
            &&& p.transform@[1]@ == q.transform@[1]@ ==> p.report(buttons).y == q.report(buttons).y
        },
{
    if p.record@ == q.record@ && p.bias@ == q.bias@ && p.deadzone == q.deadzone {
        assert(p.values() =~= q.values());
    }
}

/// A processor takes the events of its own device, and one for all devices those of any.
pub proof fn law_events_go_to_their_processor<const N: usize>(
    p: JoystickProcessor<N>,
    event: PointingEvent,
)
    ensures
        p.device_id == 255 ==> p.accepts(event),
        p.device_id == event.device_id ==> p.accepts(event),
        p.device_id != 255 && p.device_id != event.device_id ==> !p.accepts(event),
{
}

} // verus!
