//! The ADC: joysticks and the battery on one converter.
//!
//! [`NrfAdc`] decides what is sampled when and what the samples mean; the
//! converter, the supply pins and the timer carry it out.

use vstd::prelude::*;
use crate::input_device::joystick_power::{
    adc_axis, apply_deadzone, axis_of, beyond_deadzone, clamp_i16, clamped, IdleTracker,
    JoystickPowerConfig,
};
use crate::time::{Duration, Instant, TICK_HZ};
use crate::types::{Axis, AxisEvent, AxisValType, BatteryAdcEvent, PointingEvent};

verus! {

/// What a slot of the converter is read for. A joystick has as many channels as
/// axes, a battery has one.
#[derive(Clone, Copy, Debug, PartialEq, Eq, Structural)]
pub enum AnalogEventType {
    Joystick(u8),
    Battery,
}

#[derive(Clone, Copy, Debug, PartialEq, Eq, Structural)]
pub enum AdcState {
    Active,
    LightSleep,
}

/// Events produced by [`NrfAdc`].
#[derive(Clone, Copy, Debug, PartialEq, Eq)]
pub enum NrfAdcEvent {
    Pointing(PointingEvent),
    Battery(BatteryAdcEvent),
}

/// Without motion for longer than this the converter goes to light sleep.
pub const SLEEP_AFTER_MS: u64 = 1200;

/// A change of a channel that counts as motion.
pub const MOTION_THRESHOLD: i32 = 150;

/// Time between two battery readings under power management.
pub const BATTERY_PERIOD_SECS: u64 = 30;

/// Core clock cycles per microsecond of settling.
pub const CYCLES_PER_US: u32 = 64;

/// The three axes at rest.
pub open spec fn axes_with(x: i16, y: i16, z: i16) -> Seq<AxisEvent> {
    seq![
        AxisEvent { typ: AxisValType::Rel, axis: Axis::X, value: x },
        AxisEvent { typ: AxisValType::Rel, axis: Axis::Y, value: y },
        AxisEvent { typ: AxisValType::Rel, axis: Axis::Z, value: z },
    ]
}

fn make_axes(x: i16, y: i16, z: i16) -> (r: [AxisEvent; 3])
    ensures
        r@ == axes_with(x, y, z),
{
    let r = [
        AxisEvent { typ: AxisValType::Rel, axis: Axis::X, value: x },
        AxisEvent { typ: AxisValType::Rel, axis: Axis::Y, value: y },
        AxisEvent { typ: AxisValType::Rel, axis: Axis::Z, value: z },
    ];
    assert(r@ =~= axes_with(x, y, z));
    r
}

/// Channels that a slot takes from the samples.
pub open spec fn slot_width(event: AnalogEventType, powered: bool) -> nat {
    match event {
        AnalogEventType::Battery => 1,
        AnalogEventType::Joystick(size) => if powered {
            size as nat
        } else if size == 0 || size > 3 {
            0
        } else if size == 1 {
            1
        } else {
            2
        },
    }
}

/// Channels taken by the first `n` slots.
pub open spec fn channels_before(events: Seq<AnalogEventType>, n: int, powered: bool) -> nat
    decreases n,
{
    if n <= 0 {
        0
    } else {
        channels_before(events, n - 1, powered) + slot_width(events[n - 1], powered)
    }
}

proof fn lemma_channels_grow(events: Seq<AnalogEventType>, a: int, b: int, powered: bool)
    requires
        0 <= a <= b,
    ensures
        channels_before(events, a, powered) <= channels_before(events, b, powered),
    decreases b - a,
{
    if a < b {
        lemma_channels_grow(events, a, b - 1, powered);
    }
}

/// Sampling under power management.
#[derive(Debug)]
pub struct PowerSampling {
    pub config: JoystickPowerConfig,
    /// Whether each slot has a supply pin.
    pub switched: Vec<bool>,
    pub bias: Vec<[i16; 3]>,
    pub deadzones: Vec<u16>,
    pub idle: IdleTracker,
    pub next_sample: Instant,
    pub battery_due: Instant,
    pub boot_done: bool,
    pub sample_valid: bool,
    pub battery_ready: bool,
    pub warned: bool,
}

/// What happens before the next event is read.
#[derive(Clone, Copy, Debug, PartialEq, Eq, Structural)]
pub enum AdcWait {
    /// Sample into the second buffer at once.
    SampleFirst,
    /// Wait.
    Sleep(Duration),
}

/// The converter and its slots.
#[derive(Debug)]
pub struct NrfAdc {
    pub pins: usize,
    pub polling_interval: Duration,
    pub light_sleep: Option<Duration>,
    /// Two buffers of one sample per pin.
    pub first: Vec<i16>,
    pub second: Vec<i16>,
    pub event_type: Vec<AnalogEventType>,
    /// Device id emitted for each slot; of no meaning for a battery.
    pub event_device_ids: Vec<u8>,
    pub event_state: u8,
    pub channel_state: u8,
    /// Whether the first buffer is the current one.
    pub buf_state: bool,
    pub adc_state: AdcState,
    /// The last motion; the boot instant before the first sample.
    pub active_instant: Instant,
    pub power: Option<PowerSampling>,
}

fn zeros(n: usize) -> (r: Vec<i16>)
    ensures
        r@ == Seq::new(n as nat, |i: int| 0i16),
{
    let mut v: Vec<i16> = Vec::new();
    let mut i: usize = 0;
    while i < n
        invariant
            i <= n,
            v@ == Seq::new(i as nat, |j: int| 0i16),
        decreases n - i,
    {
        v.push(0);
        i = i + 1;
        assert(v@ =~= Seq::new(i as nat, |j: int| 0i16));
    }
    v
}

/// Whether any channel differs between two samples by more than the threshold.
pub open spec fn moved(a: Seq<i16>, b: Seq<i16>) -> bool {
    exists|i: int|
        0 <= i < a.len() && i < b.len() && (a[i] - b[i] > MOTION_THRESHOLD || #[trigger] b[i]
            - a[i] > MOTION_THRESHOLD)
}

fn has_moved(a: &Vec<i16>, b: &Vec<i16>) -> (r: bool)
    ensures
        r == moved(a@, b@),
{
    let mut i: usize = 0;
    while i < a.len() && i < b.len()
        invariant
            i <= a@.len(),
            i <= b@.len(),
            forall|j: int|
                0 <= j < i ==> !(a@[j] - b@[j] > MOTION_THRESHOLD || #[trigger] b@[j] - a@[j]
                    > MOTION_THRESHOLD),
        decreases a@.len() - i,
    {
        let d: i32 = a[i] as i32 - b[i] as i32;
        if d > MOTION_THRESHOLD || -d > MOTION_THRESHOLD {
            assert(b@[i as int] - a@[i as int] == -d);
            return true;
        }
        i = i + 1;
    }
    false
}

/// A raw reading as the battery event carries it without power management.
pub open spec fn as_unsigned(raw: i16) -> u16 {
    if raw < 0 {
        (raw + 65536) as u16
    } else {
        raw as u16
    }
}

impl NrfAdc {
    /// The current buffer.
    pub open spec fn current(&self) -> Seq<i16> {
        if self.buf_state {
            self.first@
        } else {
            self.second@
        }
    }

    /// The slots fit the pins, and the channels taken are those of the slots read.
    pub open spec fn wf(&self) -> bool {
        let n = self.event_type@.len();
        let powered = self.power is Some;
        &&& 0 < n <= 255
        &&& self.pins <= 255
        &&& self.first@.len() == self.pins
        &&& self.second@.len() == self.pins
        &&& self.event_device_ids@.len() == n
        &&& self.event_state <= n
        &&& channels_before(self.event_type@, n as int, powered) <= self.pins
        &&& self.event_state < n ==> self.channel_state == channels_before(
            self.event_type@,
            self.event_state as int,
            powered,
        )
        &&& self.power matches Some(p) ==> {
            &&& p.switched@.len() == n
            &&& p.bias@.len() == n
            &&& p.deadzones@.len() == n
            &&& forall|i: int|
                0 <= i < n && #[trigger] self.event_type@[i] is Joystick ==> channels_before(
                    self.event_type@,
                    i,
                    true,
                ) + 2 <= self.pins
        }
    }

    pub fn new(
        pins: usize,
        event_type: Vec<AnalogEventType>,
        event_device_ids: Vec<u8>,
        polling_interval: Duration,
        light_sleep: Option<Duration>,
    ) -> (r: Self)
        requires
            0 < event_type@.len() <= 255,
            event_device_ids@.len() == event_type@.len(),
            pins <= 255,
            channels_before(event_type@, event_type@.len() as int, false) <= pins,
        ensures
            r.wf(),
            r.pins == pins,
            r.event_type == event_type,
            r.event_device_ids == event_device_ids,
            r.polling_interval == polling_interval,
            r.light_sleep == light_sleep,
            r.first@ == Seq::new(pins as nat, |i: int| 0i16),
            r.second@ == Seq::new(pins as nat, |i: int| 0i16),
            r.event_state == 0,
            r.channel_state == 0,
            !r.buf_state,
            r.adc_state == AdcState::LightSleep,
            r.active_instant.ticks == 0,
            r.power is None,
    {
        NrfAdc {
            pins,
            polling_interval,
            light_sleep,
            first: zeros(pins),
            second: zeros(pins),
            event_type,
            event_device_ids,
            event_state: 0,
            channel_state: 0,
            buf_state: false,
            adc_state: AdcState::LightSleep,
            active_instant: Instant::from_ticks(0),
            power: None,
        }
    }

    /// Puts the converter under power management. The first event is read from a
    /// fresh sample.
    pub fn with_power_management(
        self,
        config: JoystickPowerConfig,
        switched: Vec<bool>,
        bias: Vec<[i16; 3]>,
        deadzones: Vec<u16>,
    ) -> (r: Self)
        requires
            self.wf(),
            switched@.len() == self.event_type@.len(),
            bias@.len() == self.event_type@.len(),
            deadzones@.len() == self.event_type@.len(),
            channels_before(self.event_type@, self.event_type@.len() as int, true) <= self.pins,
            forall|i: int|
                0 <= i < self.event_type@.len() && #[trigger] self.event_type@[i] is Joystick
                    ==> channels_before(self.event_type@, i, true) + 2 <= self.pins,
        ensures
            r.wf(),
            r.event_state == self.event_type@.len(),
            r == (NrfAdc { power: r.power, event_state: r.event_state, ..self }),
            r.power matches Some(p) && p.config == config && p.switched == switched && p.bias
                == bias && p.deadzones == deadzones && p.idle.centered_since_us is None
                && !p.idle.idle && p.next_sample.ticks == 0 && p.battery_due.ticks == 0
                && !p.boot_done && !p.sample_valid && !p.battery_ready && !p.warned,
    {
        let event_state: u8 = self.event_type.len() as u8;
        let power = PowerSampling {
            config,
            switched,
            bias,
            deadzones,
            idle: IdleTracker::default(),
            next_sample: Instant::from_ticks(0),
            battery_due: Instant::from_ticks(0),
            boot_done: false,
            sample_valid: false,
            battery_ready: false,
            warned: false,
        };
        NrfAdc { power: Some(power), event_state, ..self }
    }

    // -----------------------------------------------------------------------
    // Without power management
    // -----------------------------------------------------------------------

    /// What happens before the next event is read.
    pub fn wait(&self) -> (r: AdcWait)
        ensures
            r == if self.active_instant.ticks == 0 {
                AdcWait::SampleFirst
            } else if self.light_sleep is Some && self.adc_state == AdcState::LightSleep {
                AdcWait::Sleep(self.light_sleep->Some_0)
            } else {
                AdcWait::Sleep(self.polling_interval)
            },
    {
        if self.active_instant.ticks == 0 {
            return AdcWait::SampleFirst;
        }
        if let Some(light_sleep) = self.light_sleep {
            if self.adc_state == AdcState::LightSleep {
                return AdcWait::Sleep(light_sleep);
            }
        }
        AdcWait::Sleep(self.polling_interval)
    }

    /// The first sample was taken at `now`.
    pub fn first_sampled(&mut self, samples: &Vec<i16>, now: Instant)
        requires
            old(self).wf(),
            samples@.len() == old(self).pins,
        ensures
            final(self).wf(),
            final(self).second@ == samples@,
            *final(self) == (NrfAdc {
                second: final(self).second,
                active_instant: now,
                ..*old(self)
            }),
    {
        self.second = vstd::slice::slice_to_vec(samples.as_slice());
        self.active_instant = now;
    }

    /// The wait is over: long without motion, the converter goes to light sleep.
    /// Whether all slots were read, so that a new sample is needed.
    pub fn waited(&mut self, now: Instant) -> (sample: bool)
        requires
            old(self).wf(),
        ensures
            final(self).wf(),
            *final(self) == (NrfAdc { adc_state: final(self).adc_state, ..*old(self) }),
            final(self).adc_state == if (now.ticks - old(self).active_instant.ticks) / 1000
                > SLEEP_AFTER_MS {
                AdcState::LightSleep
            } else {
                old(self).adc_state
            },
            sample == (old(self).event_state == old(self).event_type@.len()),
    {
        let elapsed = now.saturating_duration_since(self.active_instant);
        if elapsed.ticks / 1000 > SLEEP_AFTER_MS {
            self.adc_state = AdcState::LightSleep;
        }
        self.event_state as usize == self.event_type.len()
    }

    /// A new sample was taken: it goes to the other buffer, and motion against the
    /// one before wakes the converter.
    pub fn sampled(&mut self, samples: &Vec<i16>, now: Instant)
        requires
            old(self).wf(),
            samples@.len() == old(self).pins,
        ensures
            final(self).wf(),
            final(self).buf_state == !old(self).buf_state,
            final(self).current() == samples@,
            final(self).first@ == if final(self).buf_state {
                samples@
            } else {
                old(self).first@
            },
            final(self).second@ == if final(self).buf_state {
                old(self).second@
            } else {
                samples@
            },
            final(self).event_state == 0,
            final(self).channel_state == 0,
            ({
                let motion = moved(final(self).first@, final(self).second@);
                &&& final(self).adc_state == if motion {
                    AdcState::Active
                } else {
                    old(self).adc_state
                }
                &&& final(self).active_instant == if motion {
                    now
                } else {
                    old(self).active_instant
                }
            }),
            *final(self) == (NrfAdc {
                first: final(self).first,
                second: final(self).second,
                buf_state: final(self).buf_state,
                adc_state: final(self).adc_state,
                active_instant: final(self).active_instant,
                event_state: 0,
                channel_state: 0,
                ..*old(self)
            }),
    {
        self.buf_state = !self.buf_state;
        let copy = vstd::slice::slice_to_vec(samples.as_slice());
        if self.buf_state {
            self.first = copy;
        } else {
            self.second = copy;
        }
        if has_moved(&self.first, &self.second) {
            self.adc_state = AdcState::Active;
            self.active_instant = now;
        }
        self.channel_state = 0;
        self.event_state = 0;
    }

    /// The event of a slot without power management. A joystick without or with
    /// more than three axes has none; of the others the first two axes are read.
    pub open spec fn slot_event(&self, slot: int, event: Option<NrfAdcEvent>) -> bool {
        let data = self.current();
        let at = channels_before(self.event_type@, slot, false) as int;
        match self.event_type@[slot] {
            AnalogEventType::Joystick(size) => if size == 0 || size > 3 {
                event is None
            } else {
                event matches Some(NrfAdcEvent::Pointing(p)) && p.device_id
                    == self.event_device_ids@[slot] && p.axes@ == axes_with(
                    axis_of(data[at]),
                    if size >= 2 {
                        axis_of(data[at + 1])
                    } else {
                        0
                    },
                    0,
                )
            },
            AnalogEventType::Battery => event == Some(
                NrfAdcEvent::Battery(BatteryAdcEvent(as_unsigned(data[at]))),
            ),
        }
    }

    /// Reads the next slot.
    pub fn read_nrf_adc_event(&mut self) -> (r: Option<NrfAdcEvent>)
        requires
            old(self).wf(),
            old(self).power is None,
            old(self).event_state < old(self).event_type@.len(),
        ensures
            final(self).wf(),
            old(self).slot_event(old(self).event_state as int, r),
            final(self).event_state == old(self).event_state + 1,
            *final(self) == (NrfAdc {
                event_state: final(self).event_state,
                channel_state: final(self).channel_state,
                ..*old(self)
            }),
    {
        let slot: usize = self.event_state as usize;
        let at: usize = self.channel_state as usize;
        proof {
            lemma_channels_grow(
                self.event_type@,
                slot + 1,
                self.event_type@.len() as int,
                false,
            );
        }
        self.event_state = self.event_state + 1;
        match self.event_type[slot] {
            AnalogEventType::Joystick(size) => {
                if size > 3 || size == 0 {
                    return None;
                }
                let x: i16 = adc_axis(self.read_at(at));
                let mut y: i16 = 0;
                if size >= 2 {
                    y = adc_axis(self.read_at(at + 1));
                    self.channel_state = self.channel_state + 2;
                } else {
                    self.channel_state = self.channel_state + 1;
                }
                let axes = make_axes(x, y, 0);
                Some(
                    NrfAdcEvent::Pointing(
                        PointingEvent { device_id: self.event_device_ids[slot], axes },
                    ),
                )
            },
            AnalogEventType::Battery => {
                let raw: i16 = self.read_at(at);
                self.channel_state = self.channel_state + 1;
                let value: u16 = if raw < 0 {
                    (raw as i32 + 65536) as u16
                } else {
                    raw as u16
                };
                Some(NrfAdcEvent::Battery(BatteryAdcEvent(value)))
            },
        }
    }

    fn read_at(&self, channel: usize) -> (r: i16)
        requires
            self.first@.len() == self.pins,
            self.second@.len() == self.pins,
            channel < self.pins,
        ensures
            r == self.current()[channel as int],
    {
        if self.buf_state {
            self.first[channel]
        } else {
            self.second[channel]
        }
    }

    // -----------------------------------------------------------------------
    // With power management
    // -----------------------------------------------------------------------

    /// The axis value of channel `at + axis`, zero where the joystick has no such
    /// axis.
    pub open spec fn powered_axis(&self, at: int, size: u8, axis: int) -> i16 {
        if axis < size {
            axis_of(self.first@[at + axis])
        } else {
            0
        }
    }

    /// The event of a slot under power management. Joysticks have one only after a
    /// valid sample, batteries only after a reading of their own.
    pub open spec fn powered_event(&self, slot: int, event: Option<NrfAdcEvent>) -> bool {
        let at = channels_before(self.event_type@, slot, true) as int;
        let p = self.power->Some_0;
        match self.event_type@[slot] {
            AnalogEventType::Joystick(size) => if !p.sample_valid {
                event is None
            } else {
                event matches Some(NrfAdcEvent::Pointing(e)) && e.device_id
                    == self.event_device_ids@[slot] && e.axes@ == axes_with(
                    self.powered_axis(at, size, 0),
                    self.powered_axis(at, size, 1),
                    self.powered_axis(at, size, 2),
                )
            },
            AnalogEventType::Battery => if !p.battery_ready {
                event is None
            } else {
                event == Some(
                    NrfAdcEvent::Battery(
                        BatteryAdcEvent(
                            if self.first@[at] < 0 {
                                0
                            } else {
                                self.first@[at] as u16
                            },
                        ),
                    ),
                )
            },
        }
    }

    fn axis_at(&self, at: usize, size: u8, axis: u8) -> (r: i16)
        requires
            at + size <= self.first@.len(),
            self.first@.len() <= 255,
        ensures
            r == self.powered_axis(at as int, size, axis as int),
    {
        if axis < size {
            adc_axis(self.first[at + axis as usize])
        } else {
            0
        }
    }

    /// Reads the next slot.
    pub fn read_powered_event(&mut self) -> (r: Option<NrfAdcEvent>)
        requires
            old(self).wf(),
            old(self).power is Some,
            old(self).event_state < old(self).event_type@.len(),
        ensures
            final(self).wf(),
            old(self).powered_event(old(self).event_state as int, r),
            final(self).event_state == old(self).event_state + 1,
            *final(self) == (NrfAdc {
                event_state: final(self).event_state,
                channel_state: final(self).channel_state,
                ..*old(self)
            }),
    {
        let slot: usize = self.event_state as usize;
        let at: usize = self.channel_state as usize;
        proof {
            lemma_channels_grow(
                self.event_type@,
                slot + 1,
                self.event_type@.len() as int,
                true,
            );
        }
        self.event_state = self.event_state + 1;
        let (valid, ready) = match &self.power {
            Some(p) => (p.sample_valid, p.battery_ready),
            None => (false, false),
        };
        match self.event_type[slot] {
            AnalogEventType::Joystick(size) => {
                self.channel_state = self.channel_state + size;
                if !valid {
                    return None;
                }
                let axes = make_axes(
                    self.axis_at(at, size, 0),
                    self.axis_at(at, size, 1),
                    self.axis_at(at, size, 2),
                );
                Some(
                    NrfAdcEvent::Pointing(
                        PointingEvent { device_id: self.event_device_ids[slot], axes },
                    ),
                )
            },
            AnalogEventType::Battery => {
                let raw: i16 = self.first[at];
                self.channel_state = self.channel_state + 1;
                if !ready {
                    return None;
                }
                let value: u16 = if raw < 0 {
                    0
                } else {
                    raw as u16
                };
                Some(NrfAdcEvent::Battery(BatteryAdcEvent(value)))
            },
        }
    }
}

/// Whether an axis is at rest: within its dead zone once its bias is applied.
pub open spec fn axis_rests(raw: i16, bias: i16, deadzone: u16) -> bool {
    beyond_deadzone(
        clamped(axis_of(raw) + bias, i16::MIN as int, i16::MAX as int) as i16,
        deadzone,
    ) == 0
}

/// Whether the first two axes of a joystick slot are at rest; slots without a
/// joystick always are.
pub open spec fn slot_rests(
    events: Seq<AnalogEventType>,
    samples: Seq<i16>,
    bias: Seq<[i16; 3]>,
    deadzones: Seq<u16>,
    slot: int,
) -> bool {
    let at = channels_before(events, slot, true) as int;
    events[slot] is Joystick ==> axis_rests(samples[at], bias[slot]@[0], deadzones[slot])
        && axis_rests(samples[at + 1], bias[slot]@[1], deadzones[slot])
}

/// Whether every joystick is at rest.
pub open spec fn all_rest(
    events: Seq<AnalogEventType>,
    samples: Seq<i16>,
    bias: Seq<[i16; 3]>,
    deadzones: Seq<u16>,
) -> bool {
    forall|slot: int|
        0 <= slot < events.len() ==> #[trigger] slot_rests(events, samples, bias, deadzones, slot)
}

fn is_axis_at_rest(raw: i16, bias: i16, deadzone: u16) -> (r: bool)
    ensures
        r == axis_rests(raw, bias, deadzone),
{
    let sum: i16 = clamp_i16(adc_axis(raw) as i32 + bias as i32);
    apply_deadzone(sum, deadzone) == 0
}

fn is_at_rest(
    events: &Vec<AnalogEventType>,
    samples: &Vec<i16>,
    bias: &Vec<[i16; 3]>,
    deadzones: &Vec<u16>,
) -> (r: bool)
    requires
        bias@.len() == events@.len(),
        deadzones@.len() == events@.len(),
        channels_before(events@, events@.len() as int, true) <= samples@.len(),
        forall|i: int|
            0 <= i < events@.len() && #[trigger] events@[i] is Joystick ==> channels_before(
                events@,
                i,
                true,
            ) + 2 <= samples@.len(),
    ensures
        r == all_rest(events@, samples@, bias@, deadzones@),
{
    let n: usize = events.len();
    let total: usize = samples.len();
    let mut slot: usize = 0;
    let mut channel: usize = 0;
    let mut rest: bool = true;
    while slot < n
        invariant
            n == events@.len(),
            total == samples@.len(),
            bias@.len() == n,
            deadzones@.len() == n,
            slot <= n,
            channels_before(events@, n as int, true) <= samples@.len(),
            forall|i: int|
                0 <= i < n && #[trigger] events@[i] is Joystick ==> channels_before(
                    events@,
                    i,
                    true,
                ) + 2 <= samples@.len(),
            channel == channels_before(events@, slot as int, true),
            channel <= samples@.len(),
            rest == forall|j: int|
                0 <= j < slot ==> #[trigger] slot_rests(
                    events@,
                    samples@,
                    bias@,
                    deadzones@,
                    j,
                ),
        decreases n - slot,
    {
        proof {
            lemma_channels_grow(events@, slot + 1, n as int, true);
        }
        let ghost here = slot_rests(events@, samples@, bias@, deadzones@, slot as int);
        match events[slot] {
            AnalogEventType::Joystick(size) => {
                assert(events@[slot as int] is Joystick);
                let b = bias[slot];
                let x = is_axis_at_rest(samples[channel], b[0], deadzones[slot]);
                let y = is_axis_at_rest(samples[channel + 1], b[1], deadzones[slot]);
                assert(here == (x && y));
                rest = rest && x && y;
                channel = channel + size as usize;
            },
            AnalogEventType::Battery => {
                assert(here);
                channel = channel + 1;
            },
        }
        slot = slot + 1;
    }
    rest
}

/// Whether any slot has a supply pin.
pub open spec fn any_switched(switched: Seq<bool>) -> bool {
    exists|i: int| 0 <= i < switched.len() && #[trigger] switched[i]
}

/// A sampling run as it starts.
#[derive(Clone, Copy, Debug, PartialEq, Eq, Structural)]
pub struct SampleStart {
    /// When to start.
    pub at: Instant,
    /// How long the sticks take to settle after boot; nothing later on.
    pub boot_settle_ms: Option<u32>,
}

/// The part of a sampling run for which the sticks are supplied.
#[derive(Clone, Copy, Debug, PartialEq, Eq, Structural)]
pub struct SampleWindow {
    /// Clock cycles to let the sticks settle before the sample; no sample at all
    /// where it would not fit.
    pub settle_cycles: Option<u32>,
    /// The sample has to be there by then.
    pub deadline: Instant,
}

/// How the supply is left after a sample.
#[derive(Clone, Copy, Debug, PartialEq, Eq, Structural)]
pub struct SampleEnd {
    /// Keep the supply on, as the duty asks for all of it.
    pub keep_on: bool,
    /// Warn, once, that a sample did not fit its window.
    pub warn: bool,
    /// Whether the battery is due for a reading.
    pub read_battery: bool,
}

/// The last instant at which a run can start: its times have to be told.
pub open spec fn run_clock_ok(now: Instant) -> bool {
    now.ticks + 100_000_000 <= u64::MAX
}

impl NrfAdc {
    /// Starts a sampling run. Supplies are switched on at its start.
    pub fn begin_sample(&mut self) -> (r: SampleStart)
        requires
            old(self).wf(),
            old(self).power is Some,
        ensures
            final(self).wf(),
            ({
                let p = old(self).power->Some_0;
                &&& r == (SampleStart {
                    at: p.next_sample,
                    boot_settle_ms: if p.boot_done {
                        None
                    } else {
                        Some(p.config.boot_settle_ms)
                    },
                })
                &&& final(self).power == Some(
                    PowerSampling {
                        sample_valid: false,
                        battery_ready: false,
                        ..p
                    },
                )
                &&& *final(self) == (NrfAdc { power: final(self).power, ..*old(self) })
            }),
    {
        match self.power.take() {
            Some(p) => {
                let boot_settle_ms = if p.boot_done {
                    None
                } else {
                    Some(p.config.boot_settle_ms)
                };
                let at = p.next_sample;
                self.power =
                Some(
                    PowerSampling { sample_valid: false, battery_ready: false, ..p },
                );
                SampleStart { at, boot_settle_ms }
            },
            None => SampleStart { at: Instant::from_ticks(0), boot_settle_ms: None },
        }
    }

    /// The sticks have settled after boot. A run that ends before that leaves it to the
    /// next one.
    pub fn boot_settled(&mut self)
        requires
            old(self).wf(),
            old(self).power is Some,
        ensures
            final(self).wf(),
            final(self).power == Some(
                PowerSampling { boot_done: true, ..old(self).power->Some_0 },
            ),
            *final(self) == (NrfAdc { power: final(self).power, ..*old(self) }),
    {
        match self.power.take() {
            Some(p) => {
                self.power = Some(PowerSampling { boot_done: true, ..p });
            },
            None => {},
        }
    }

    /// The window of a run whose supply is on since `started`.
    pub fn sample_window(&self, started: Instant) -> (r: SampleWindow)
        requires
            self.wf(),
            self.power is Some,
            run_clock_ok(started),
        ensures
            ({
                let p = self.power->Some_0;
                let switched = any_switched(p.switched@);
                let window = p.config.spec_window_us(p.idle.idle, switched);
                &&& r.deadline.ticks == started.ticks + window
                &&& r.settle_cycles == if p.config.sample_settle_us + 20 <= window {
                    Some(
                        clamped(
                            p.config.sample_settle_us * CYCLES_PER_US,
                            0,
                            u32::MAX as int,
                        ) as u32,
                    )
                } else {
                    None
                }
            }),
    {
        let p = match &self.power {
            Some(p) => p,
            None => return SampleWindow { settle_cycles: None, deadline: started },
        };
        let mut switched: bool = false;
        let mut i: usize = 0;
        while i < p.switched.len()
            invariant
                i <= p.switched@.len(),
                switched == exists|j: int| 0 <= j < i && #[trigger] p.switched@[j],
            decreases p.switched@.len() - i,
        {
            if p.switched[i] {
                assert(p.switched@[i as int]);
                switched = true;
            }
            i = i + 1;
        }
        let idle = p.idle.idle;
        let window: u64 = p.config.window_us(idle, switched);
        let deadline = started.after(Duration::from_micros(window));
        let settle_cycles = if p.config.can_sample(idle, switched) {
            let cycles: u64 = p.config.sample_settle_us as u64 * CYCLES_PER_US as u64;
            let held: u32 = if cycles > u32::MAX as u64 {
                u32::MAX
            } else {
                cycles as u32
            };
            Some(held)
        } else {
            None
        };
        SampleWindow { settle_cycles, deadline }
    }

    /// Ends the supplied part of a run at `now`. `samples` is `None` where no
    /// sample was taken in time; a stick that was not sampled is not at rest.
    pub fn end_sample(&mut self, samples: Option<Vec<i16>>, now: Instant) -> (r: SampleEnd)
        requires
            old(self).wf(),
            old(self).power is Some,
            samples matches Some(s) ==> s@.len() == old(self).pins,
        ensures
            final(self).wf(),
            final(self).power is Some,
            ({
                let p = old(self).power->Some_0;
                let q = final(self).power->Some_0;
                let centered = samples is Some && all_rest(
                    old(self).event_type@,
                    samples->Some_0@,
                    p.bias@,
                    p.deadzones@,
                );
                &&& final(self).first@ == match samples {
                    Some(s) => s@,
                    None => old(self).first@,
                }
                &&& q.idle == p.idle.observed(now.ticks, centered)
                &&& q == (PowerSampling {
                    idle: q.idle,
                    sample_valid: samples is Some,
                    warned: p.warned || samples is None,
                    ..p
                })
                &&& r == (SampleEnd {
                    keep_on: samples is Some && q.config.spec_duty(q.idle.idle) == 1000,
                    warn: samples is None && !p.warned,
                    read_battery: now.ticks >= p.battery_due.ticks && has_battery(
                        old(self).event_type@,
                    ),
                })
                &&& *final(self) == (NrfAdc {
                    first: final(self).first,
                    power: final(self).power,
                    ..*old(self)
                })
            }),
    {
        let valid = samples.is_some();
        if let Some(s) = samples {
            self.first = s;
        }
        let battery = battery_slot(&self.event_type);
        match self.power.take() {
            Some(p) => {
                let centered = valid && is_at_rest(
                    &self.event_type,
                    &self.first,
                    &p.bias,
                    &p.deadzones,
                );
                let mut idle = p.idle;
                idle.observe(now.ticks, centered);
                let warn = !valid && !p.warned;
                let warned = p.warned || !valid;
                let keep_on = valid && p.config.duty(idle.idle) == 1000;
                let read_battery = now.ticks >= p.battery_due.ticks && battery;
                self.power = Some(PowerSampling { idle, sample_valid: valid, warned, ..p });
                SampleEnd { keep_on, warn, read_battery }
            },
            None => SampleEnd { keep_on: false, warn: false, read_battery: false },
        }
    }

    /// The battery was read, or could not be: its channels replace those of the
    /// first buffer. The next reading is due [`BATTERY_PERIOD_SECS`] later.
    pub fn battery_sampled(&mut self, samples: Option<Vec<i16>>, now: Instant)
        requires
            old(self).wf(),
            old(self).power is Some,
            run_clock_ok(now),
            samples matches Some(s) ==> s@.len() == old(self).pins,
        ensures
            final(self).wf(),
            final(self).power == Some(
                PowerSampling {
                    battery_ready: samples is Some,
                    battery_due: Instant {
                        ticks: (now.ticks + BATTERY_PERIOD_SECS * TICK_HZ) as u64,
                    },
                    ..old(self).power->Some_0
                },
            ),
            match samples {
                Some(s) => {
                    &&& final(self).second@ == s@
                    &&& forall|c: int|
                        0 <= c < old(self).pins ==> #[trigger] final(self).first@[c]
                            == if is_battery_channel(old(self).event_type@, c) {
                            s@[c]
                        } else {
                            old(self).first@[c]
                        }
                },
                None => final(self).first@ == old(self).first@ && final(self).second@ == old(
                    self,
                ).second@,
            },
            *final(self) == (NrfAdc {
                first: final(self).first,
                second: final(self).second,
                power: final(self).power,
                ..*old(self)
            }),
    {
        let ready = samples.is_some();
        if let Some(s) = samples {
            let n: usize = self.event_type.len();
            let mut slot: usize = 0;
            let mut channel: usize = 0;
            while slot < n
                invariant
                    n == self.event_type@.len(),
                    s@.len() == old(self).pins,
                    old(self).wf(),
                    old(self).power is Some,
                    slot <= n,
                    channel == channels_before(self.event_type@, slot as int, true),
                    self.first@.len() == old(self).pins,
                    *self == (NrfAdc { first: self.first, ..*old(self) }),
                    forall|c: int|
                        0 <= c < old(self).pins ==> #[trigger] self.first@[c]
                            == if is_battery_channel_before(self.event_type@, c, slot as int) {
                            s@[c]
                        } else {
                            old(self).first@[c]
                        },
                decreases n - slot,
            {
                proof {
                    lemma_channels_grow(self.event_type@, slot + 1, n as int, true);
                    assert forall|c: int| #[trigger]
                        is_battery_channel_before(self.event_type@, c, slot + 1)
                        == (is_battery_channel_before(self.event_type@, c, slot as int) || (
                    self.event_type@[slot as int] is Battery && c == channel)) by {
                        lemma_battery_channel_step(self.event_type@, c, slot as int);
                    }
                }
                match self.event_type[slot] {
                    AnalogEventType::Joystick(size) => {
                        channel = channel + size as usize;
                    },
                    AnalogEventType::Battery => {
                        self.first.set(channel, s[channel]);
                        channel = channel + 1;
                    },
                }
                slot = slot + 1;
            }
            self.second = s;
        }
        match self.power.take() {
            Some(p) => {
                let battery_due = now.after(Duration::from_secs(BATTERY_PERIOD_SECS));
                self.power = Some(PowerSampling { battery_ready: ready, battery_due, ..p });
            },
            None => {},
        }
    }

    /// Ends a run that started at `started`: slots are read from the beginning,
    /// and the next run is a period after this one's start, never before the next
    /// tick. Missed runs are skipped, so there is no burst of catch-up pulses.
    pub fn end_run(&mut self, started: Instant, now: Instant)
        requires
            old(self).wf(),
            old(self).power is Some,
            run_clock_ok(started),
            run_clock_ok(now),
        ensures
            final(self).wf(),
            final(self).event_state == 0,
            final(self).channel_state == 0,
            ({
                let p = old(self).power->Some_0;
                let due = started.ticks + p.config.spec_period_us(p.idle.idle);
                &&& final(self).power == Some(
                    PowerSampling {
                        next_sample: Instant {
                            ticks: if due > now.ticks + 1 {
                                due as u64
                            } else {
                                (now.ticks + 1) as u64
                            },
                        },
                        ..p
                    },
                )
                &&& *final(self) == (NrfAdc {
                    event_state: 0,
                    channel_state: 0,
                    power: final(self).power,
                    ..*old(self)
                })
            }),
    {
        self.event_state = 0;
        self.channel_state = 0;
        match self.power.take() {
            Some(p) => {
                let period: u64 = p.config.period_us(p.idle.idle);
                let due = started.after(Duration::from_micros(period));
                let next = now.after(Duration::from_ticks(1));
                let next_sample = if due.ticks > next.ticks {
                    due
                } else {
                    next
                };
                self.power = Some(PowerSampling { next_sample, ..p });
            },
            None => {},
        }
    }
}

pub open spec fn has_battery(events: Seq<AnalogEventType>) -> bool {
    exists|i: int| 0 <= i < events.len() && #[trigger] events[i] is Battery
}

fn battery_slot(events: &Vec<AnalogEventType>) -> (r: bool)
    ensures
        r == has_battery(events@),
{
    let mut i: usize = 0;
    while i < events.len()
        invariant
            i <= events@.len(),
            forall|j: int| 0 <= j < i ==> !(#[trigger] events@[j] is Battery),
        decreases events@.len() - i,
    {
        if let AnalogEventType::Battery = events[i] {
            assert(events@[i as int] is Battery);
            return true;
        }
        i = i + 1;
    }
    false
}

/// Whether a channel belongs to a battery among the first `n` slots.
pub open spec fn is_battery_channel_before(events: Seq<AnalogEventType>, c: int, n: int) -> bool {
    exists|slot: int|
        0 <= slot < n && #[trigger] events[slot] is Battery && channels_before(events, slot, true)
            == c
}

pub open spec fn is_battery_channel(events: Seq<AnalogEventType>, c: int) -> bool {
    is_battery_channel_before(events, c, events.len() as int)
}

proof fn lemma_battery_channel_step(events: Seq<AnalogEventType>, c: int, n: int)
    requires
        0 <= n < events.len(),
    ensures
        is_battery_channel_before(events, c, n + 1) == (is_battery_channel_before(events, c, n) || (
        events[n] is Battery && c == channels_before(events, n, true))),
{
    if is_battery_channel_before(events, c, n + 1) && !(events[n] is Battery && c
        == channels_before(events, n, true)) {
        let slot = choose|slot: int|
            0 <= slot < n + 1 && #[trigger] events[slot] is Battery && channels_before(
                events,
                slot,
                true,
            ) == c;
        assert(slot < n);
    }
    if is_battery_channel_before(events, c, n) {
        let slot = choose|slot: int|
            0 <= slot < n && #[trigger] events[slot] is Battery && channels_before(
                events,
                slot,
                true,
            ) == c;
        assert(events[slot] is Battery);
    }
}

// ---------------------------------------------------------------------------
// Laws
// ---------------------------------------------------------------------------

/// A battery reading cannot wake a joystick: the channels of a joystick are none
/// of a battery's.
pub proof fn law_a_battery_reading_leaves_joysticks_alone(
    events: Seq<AnalogEventType>,
    slot: int,
    axis: int,
)
    requires
        0 <= slot < events.len(),
        events[slot] matches AnalogEventType::Joystick(size) && 0 <= axis < size,
    ensures
        !is_battery_channel(events, channels_before(events, slot, true) + axis),
{
    let c = channels_before(events, slot, true) + axis;
    if is_battery_channel(events, c) {
        let other = choose|other: int|
            0 <= other < events.len() && #[trigger] events[other] is Battery && channels_before(
                events,
                other,
                true,
            ) == c;
        if other < slot {
            lemma_channels_grow(events, other + 1, slot, true);
        } else {
            assert(other != slot);
            lemma_channels_grow(events, slot + 1, other, true);
        }
    }
}

/// A slot takes one channel for a battery and one for each axis of a joystick; without power
/// management at most two axes are read, and none of a joystick with more than three. The slots
/// take their channels one after the other.
pub proof fn law_slots_take_their_channels_in_turn(
    events: Seq<AnalogEventType>,
    n: int,
    size: u8,
    powered: bool,
)
    requires
        0 <= n < events.len(),
    ensures
        channels_before(events, 0, powered) == 0,
        events[n] is Battery ==> channels_before(events, n + 1, powered) == channels_before(
            events,
            n,
            powered,
        ) + 1,
        events[n] == AnalogEventType::Joystick(size) && powered ==> channels_before(
            events,
            n + 1,
            powered,
        ) == channels_before(events, n, powered) + size,
        events[n] == AnalogEventType::Joystick(size) && !powered ==> channels_before(
            events,
            n + 1,
            powered,
        ) - channels_before(events, n, powered) == (if size == 2 || size == 3 {
            2int
        } else if size == 1 {
            1int
        } else {
            0int
        }),
{
}

/// Motion is a change of some channel by more than 150, up or down.
pub proof fn law_motion_is_a_change_of_some_channel(a: Seq<i16>, b: Seq<i16>, i: int)
    requires
        a.len() == b.len(),
    ensures
        moved(a, b) <==> moved(b, a),
        0 <= i < a.len() && (a[i] >= b[i] + 151 || a[i] <= b[i] - 151) ==> moved(a, b),
        moved(a, b) ==> exists|k: int|
            0 <= k < a.len() && (#[trigger] a[k] >= b[k] + 151 || a[k] <= b[k] - 151),
        !moved(a, a),
{
    if 0 <= i < a.len() && (a[i] >= b[i] + 151 || a[i] <= b[i] - 151) {
        assert(b[i] - a[i] > MOTION_THRESHOLD || a[i] - b[i] > MOTION_THRESHOLD);
    }
    if moved(a, b) {
        let k = choose|k: int|
            0 <= k < a.len() && k < b.len() && (a[k] - b[k] > MOTION_THRESHOLD || #[trigger] b[k]
                - a[k] > MOTION_THRESHOLD);
        assert(a[k] >= b[k] + 151 || a[k] <= b[k] - 151);
        assert(a[k] - b[k] > MOTION_THRESHOLD || b[k] - a[k] > MOTION_THRESHOLD);
    }
    if moved(b, a) {
        let k = choose|k: int|
            0 <= k < b.len() && k < a.len() && (b[k] - a[k] > MOTION_THRESHOLD || #[trigger] a[k]
                - b[k] > MOTION_THRESHOLD);
        assert(a[k] - b[k] > MOTION_THRESHOLD || b[k] - a[k] > MOTION_THRESHOLD);
    }
}

/// A joystick is read from its own channels, the first for X and the second for Y, and a battery
/// from its own channel: the event names its device, and an axis that is not there is at rest.
pub proof fn law_an_event_comes_from_its_own_channels(
    adc: NrfAdc,
    slot: int,
    event: Option<NrfAdcEvent>,
)
    requires
        adc.wf(),
        adc.power is None,
        0 <= slot < adc.event_type@.len(),
        adc.slot_event(slot, event),
    ensures
        ({
            let at = channels_before(adc.event_type@, slot, false) as int;
            match adc.event_type@[slot] {
                AnalogEventType::Battery => event matches Some(NrfAdcEvent::Battery(b)) && (
                adc.current()[at] >= 0 ==> b.0 == adc.current()[at]) && (adc.current()[at] < 0
                    ==> b.0 == adc.current()[at] + 65536),
                AnalogEventType::Joystick(size) => if 1 <= size <= 3 {
                    event matches Some(NrfAdcEvent::Pointing(p)) && p.device_id
                        == adc.event_device_ids@[slot] && p.axes@.len() == 3 && p.axes@[0].axis
                        is X && p.axes@[1].axis is Y && p.axes@[2].axis is Z && p.axes@[0].value
                        == (if adc.current()[at] >= 0 {
                        2 * adc.current()[at] - 32768
                    } else {
                        -32768
                    }) && (size == 1 ==> p.axes@[1].value == 0) && (size > 1 ==> p.axes@[1].value
                        == (if adc.current()[at + 1] >= 0 {
                        2 * adc.current()[at + 1] - 32768
                    } else {
                        -32768
                    })) && p.axes@[2].value == 0
                } else {
                    event is None
                },
            }
        }),
{
}

/// Under power management a joystick has an event only after a valid sample, with as many axes
/// as it has channels, in their order; a battery only after a reading of its own, which is never
/// negative.
pub proof fn law_a_powered_event_needs_its_sample(
    adc: NrfAdc,
    slot: int,
    event: Option<NrfAdcEvent>,
    axis: int,
)
    requires
        adc.wf(),
        adc.power is Some,
        0 <= slot < adc.event_type@.len(),
        adc.powered_event(slot, event),
        0 <= axis < 3,
    ensures
        ({
            let at = channels_before(adc.event_type@, slot, true) as int;
            match adc.event_type@[slot] {
                AnalogEventType::Battery => if adc.power->0.battery_ready {
                    event matches Some(NrfAdcEvent::Battery(b)) && (adc.first@[at] >= 0 ==> b.0
                        == adc.first@[at]) && (adc.first@[at] < 0 ==> b.0 == 0)
                } else {
                    event is None
                },
                AnalogEventType::Joystick(size) => if adc.power->0.sample_valid {
                    event matches Some(NrfAdcEvent::Pointing(p)) && p.device_id
                        == adc.event_device_ids@[slot] && (axis >= size ==> p.axes@[axis].value
                        == 0) && (axis < size && adc.first@[at + axis] >= 0 ==> p.axes@[axis].value
                        == 2 * adc.first@[at + axis] - 32768) && (axis < size && adc.first@[at
                        + axis] < 0 ==> p.axes@[axis].value == -32768)
                } else {
                    event is None
                },
            }
        }),
{
}

/// An axis rests within its dead zone around its bias, and nowhere else.
pub proof fn law_an_axis_rests_within_its_dead_zone(raw: i16, bias: i16, deadzone: u16)
    requires
        0 <= raw,
        -32768 <= 2 * raw - 32768 + bias <= 32767,
    ensures
        axis_rests(raw, bias, deadzone) <==> -deadzone <= 2 * raw - 32768 + bias <= deadzone,
{
}

/// The sticks are at rest where the first two axes of each of them are; a battery never keeps
/// them from it.
pub proof fn law_all_sticks_rest_together(
    events: Seq<AnalogEventType>,
    samples: Seq<i16>,
    bias: Seq<[i16; 3]>,
    deadzones: Seq<u16>,
    slot: int,
)
    requires
        0 <= slot < events.len(),
    ensures
        ({
            let at = channels_before(events, slot, true) as int;
            &&& all_rest(events, samples, bias, deadzones) && events[slot] is Joystick
                ==> axis_rests(samples[at], bias[slot]@[0], deadzones[slot]) && axis_rests(
                samples[at + 1],
                bias[slot]@[1],
                deadzones[slot],
            )
            &&& events[slot] is Battery ==> slot_rests(events, samples, bias, deadzones, slot)
            &&& !slot_rests(events, samples, bias, deadzones, slot) ==> !all_rest(
                events,
                samples,
                bias,
                deadzones,
            )
        }),
{
    if all_rest(events, samples, bias, deadzones) {
        assert(slot_rests(events, samples, bias, deadzones, slot));
    }
}

} // verus!
