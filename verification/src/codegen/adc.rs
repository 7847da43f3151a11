//! The ADC device of a keyboard, from its joysticks and its battery pin.

use vstd::prelude::*;
use crate::config::toml::ChipSeries;
use crate::input_device::adc::AnalogEventType;
use crate::input_device::joystick::JoystickPowerConfig;
use crate::text::same;

verus! {

/// A joystick section.
#[derive(Debug)]
pub struct JoystickConfig {
    pub name: String,
    pub pin_x: String,
    pub pin_y: String,
    pub pin_z: String,
    pub transform: Vec<Vec<i16>>,
    pub bias: Vec<i16>,
    pub resolution: u16,
    pub id: Option<u8>,
    pub polling_rate_hz: u16,
    pub idle_polling_rate_hz: u16,
    pub sample_settle_us: u32,
    pub boot_settle_ms: u32,
    pub deadzone: u16,
    pub power_pin: Option<String>,
}

/// The part of the BLE section that the battery needs.
#[derive(Debug)]
pub struct BleConfig {
    pub enabled: bool,
    pub battery_adc_pin: Option<String>,
    pub adc_divider_measured: Option<u32>,
    pub adc_divider_total: Option<u32>,
}

/// What a channel of the converter measures.
#[derive(Debug)]
pub enum ChannelExpr {
    /// The supply voltage through the internal divider by five.
    VddhDiv5,
    /// A pin by its name.
    Pin(String),
}

/// A slot of the converter.
#[derive(Debug)]
pub struct SlotExpr {
    pub event: AnalogEventType,
    pub device_id: u8,
    pub power_pin: Option<String>,
    pub bias: [i16; 3],
    pub deadzone: u16,
}

/// A processor of what the converter reads.
#[derive(Debug)]
pub enum ProcessorExpr {
    Battery { divider_measured: u32, divider_total: u32 },
    Joystick {
        name: String,
        device_id: u8,
        transform: Vec<Vec<i16>>,
        bias: Vec<i16>,
        resolution: u16,
        deadzone: u16,
    },
}

/// The converter.
#[derive(Debug)]
pub struct AdcDeviceExpr {
    pub channels: Vec<ChannelExpr>,
    pub slots: Vec<SlotExpr>,
    pub polling_interval_ms: u16,
    pub light_sleep_ms: Option<u16>,
    /// Power management, where there is a joystick.
    pub power: Option<JoystickPowerConfig>,
}

/// What is generated: the converter, if it has anything to read, and the
/// processors.
#[derive(Debug)]
pub struct AdcExpr {
    pub device: Option<AdcDeviceExpr>,
    pub processors: Vec<ProcessorExpr>,
}

// ---------------------------------------------------------------------------
// Checks
// ---------------------------------------------------------------------------

/// Samples per second of a joystick in use, and of one at rest.
pub const DEFAULT_POLLING_RATE_HZ: u16 = 50;

pub const DEFAULT_IDLE_POLLING_RATE_HZ: u16 = 10;

/// Settling time before a sample, and after boot.
pub const DEFAULT_SAMPLE_SETTLE_US: u32 = 20;

pub const DEFAULT_BOOT_SETTLE_MS: u32 = 2;

/// The longest dead zone that leaves anything of an axis.
pub const MAX_DEADZONE: u16 = 32767;

/// Why the timing of a joystick is refused, if it is.
pub open spec fn power_config_error(j: JoystickConfig) -> Option<Seq<char>> {
    if j.polling_rate_hz == 0 {
        Some("joystick polling_rate_hz must be at least 1"@)
    } else if j.idle_polling_rate_hz == 0 || j.idle_polling_rate_hz > j.polling_rate_hz {
        Some("joystick idle_polling_rate_hz must be between 1 and polling_rate_hz"@)
    } else if j.deadzone > MAX_DEADZONE {
        Some("joystick deadzone must be at most 32767"@)
    } else {
        None
    }
}

impl JoystickConfig {
    /// A joystick section in which everything optional is left out.
    pub fn new(
        name: String,
        pin_x: String,
        pin_y: String,
        pin_z: String,
        transform: Vec<Vec<i16>>,
        bias: Vec<i16>,
        resolution: u16,
    ) -> (r: Self)
        ensures
            r == (JoystickConfig {
                name,
                pin_x,
                pin_y,
                pin_z,
                transform,
                bias,
                resolution,
                id: None,
                polling_rate_hz: 50,
                idle_polling_rate_hz: 10,
                sample_settle_us: 20,
                boot_settle_ms: 2,
                deadzone: 0,
                power_pin: None,
            }),
            power_config_error(r) is None,
    {
        JoystickConfig {
            name,
            pin_x,
            pin_y,
            pin_z,
            transform,
            bias,
            resolution,
            id: None,
            polling_rate_hz: DEFAULT_POLLING_RATE_HZ,
            idle_polling_rate_hz: DEFAULT_IDLE_POLLING_RATE_HZ,
            sample_settle_us: DEFAULT_SAMPLE_SETTLE_US,
            boot_settle_ms: DEFAULT_BOOT_SETTLE_MS,
            deadzone: 0,
            power_pin: None,
        }
    }

    pub fn validate_power_config(&self) -> (r: Result<(), String>)
        ensures
            match r {
                Ok(()) => power_config_error(*self) is None,
                Err(e) => power_config_error(*self) == Some(e@),
            },
    {
        if self.polling_rate_hz == 0 {
            return Err(String::from_str("joystick polling_rate_hz must be at least 1"));
        }
        if self.idle_polling_rate_hz == 0 || self.idle_polling_rate_hz > self.polling_rate_hz {
            return Err(
                String::from_str(
                    "joystick idle_polling_rate_hz must be between 1 and polling_rate_hz",
                ),
            );
        }
        if self.deadzone > MAX_DEADZONE {
            return Err(String::from_str("joystick deadzone must be at most 32767"));
        }
        Ok(())
    }
}

/// Axes of a joystick: its pins up to the first that is left out.
pub open spec fn axis_count(j: JoystickConfig) -> nat {
    if j.pin_x@ == "_"@ {
        0
    } else if j.pin_y@ == "_"@ {
        1
    } else if j.pin_z@ == "_"@ {
        2
    } else {
        3
    }
}

pub open spec fn same_timing(a: JoystickConfig, b: JoystickConfig) -> bool {
    &&& a.polling_rate_hz == b.polling_rate_hz
    &&& a.idle_polling_rate_hz == b.idle_polling_rate_hz
    &&& a.sample_settle_us == b.sample_settle_us
    &&& a.boot_settle_ms == b.boot_settle_ms
}

/// Bias and transform have one entry, and one row and column, per axis.
pub open spec fn dimensions_match(j: JoystickConfig) -> bool {
    &&& j.bias@.len() == axis_count(j)
    &&& j.transform@.len() == axis_count(j)
    &&& forall|i: int|
        0 <= i < j.transform@.len() ==> (#[trigger] j.transform@[i])@.len() == axis_count(j)
}

/// Why a joystick is refused beside the first one, if it is.
pub open spec fn joystick_error(first: JoystickConfig, j: JoystickConfig) -> Option<Seq<char>> {
    if power_config_error(j) is Some {
        power_config_error(j)
    } else if !same_timing(first, j) {
        Some("joysticks sharing one SAADC must use the same polling/settling parameters"@)
    } else if axis_count(j) < 2 {
        Some("joystick must have X/Y, and optionally Z"@)
    } else if !dimensions_match(j) {
        Some("joystick bias/transform dimensions must match its ADC axes"@)
    } else {
        None
    }
}

/// Why the first joystick that is refused is refused.
pub open spec fn first_error(joysticks: Seq<JoystickConfig>) -> Option<Seq<char>>
    decreases joysticks.len(),
{
    if joysticks.len() == 0 {
        None
    } else {
        match first_error(joysticks.drop_last()) {
            Some(e) => Some(e),
            None => joystick_error(joysticks[0], joysticks.last()),
        }
    }
}

fn check_dimensions(j: &JoystickConfig, count: usize) -> (r: bool)
    requires
        count == axis_count(*j),
    ensures
        r == dimensions_match(*j),
{
    if j.bias.len() != count || j.transform.len() != count {
        return false;
    }
    let mut i: usize = 0;
    while i < j.transform.len()
        invariant
            count == axis_count(*j),
            i <= j.transform@.len(),
            forall|k: int| 0 <= k < i ==> (#[trigger] j.transform@[k])@.len() == count,
        decreases j.transform@.len() - i,
    {
        if j.transform[i].len() != count {
            assert(j.transform@[i as int]@.len() != count);
            return false;
        }
        i = i + 1;
    }
    true
}

fn count_axes(j: &JoystickConfig) -> (r: usize)
    ensures
        r == axis_count(*j),
{
    if same(j.pin_x.as_str(), "_") {
        0
    } else if same(j.pin_y.as_str(), "_") {
        1
    } else if same(j.pin_z.as_str(), "_") {
        2
    } else {
        3
    }
}

fn check_joystick(first: &JoystickConfig, j: &JoystickConfig) -> (r: Result<(), String>)
    ensures
        match r {
            Ok(()) => joystick_error(*first, *j) is None,
            Err(e) => joystick_error(*first, *j) == Some(e@),
        },
{
    match j.validate_power_config() {
        Err(e) => return Err(e),
        Ok(()) => {},
    }
    if first.polling_rate_hz != j.polling_rate_hz || first.idle_polling_rate_hz
        != j.idle_polling_rate_hz || first.sample_settle_us != j.sample_settle_us
        || first.boot_settle_ms != j.boot_settle_ms {
        return Err(
            String::from_str(
                "joysticks sharing one SAADC must use the same polling/settling parameters",
            ),
        );
    }
    let count: usize = count_axes(j);
    if count < 2 {
        return Err(String::from_str("joystick must have X/Y, and optionally Z"));
    }
    if !check_dimensions(j, count) {
        return Err(
            String::from_str("joystick bias/transform dimensions must match its ADC axes"),
        );
    }
    Ok(())
}

// ---------------------------------------------------------------------------
// What is generated
// ---------------------------------------------------------------------------

/// The battery pin in use, if there is one.
pub open spec fn battery_pin(ble: Option<BleConfig>) -> Option<String> {
    match ble {
        Some(b) => if b.enabled {
            b.battery_adc_pin
        } else {
            None
        },
        None => None,
    }
}

pub open spec fn battery_channels(ble: Option<BleConfig>) -> Seq<ChannelExpr> {
    match battery_pin(ble) {
        Some(pin) => if pin@ == "vddh"@ {
            seq![ChannelExpr::VddhDiv5]
        } else {
            seq![ChannelExpr::Pin(pin)]
        },
        None => Seq::empty(),
    }
}

pub open spec fn axis_channels(j: JoystickConfig) -> Seq<ChannelExpr> {
    seq![
        ChannelExpr::Pin(j.pin_x),
        ChannelExpr::Pin(j.pin_y),
        ChannelExpr::Pin(j.pin_z),
    ].subrange(0, axis_count(j) as int)
}

/// The channels: the battery's, then each joystick's.
pub open spec fn channels_of(ble: Option<BleConfig>, joysticks: Seq<JoystickConfig>) -> Seq<
    ChannelExpr,
>
    decreases joysticks.len(),
{
    if joysticks.len() == 0 {
        battery_channels(ble)
    } else {
        channels_of(ble, joysticks.drop_last()) + axis_channels(joysticks.last())
    }
}

/// The id of the joystick in place `i`: its own, or its place.
pub open spec fn device_id_of(j: JoystickConfig, i: int) -> u8 {
    match j.id {
        Some(id) => id,
        None => i as u8,
    }
}

/// The bias of three axes, zero where there are fewer.
pub open spec fn bias_of(j: JoystickConfig) -> Seq<i16> {
    Seq::new(
        3,
        |i: int|
            if i < j.bias@.len() {
                j.bias@[i]
            } else {
                0i16
            },
    )
}

pub open spec fn is_battery_slot(s: SlotExpr) -> bool {
    &&& s.event == AnalogEventType::Battery
    &&& s.device_id == 0
    &&& s.power_pin is None
    &&& s.bias@ == Seq::new(3, |i: int| 0i16)
    &&& s.deadzone == 0
}

pub open spec fn is_joystick_slot(j: JoystickConfig, i: int, s: SlotExpr) -> bool {
    &&& s.event == AnalogEventType::Joystick(axis_count(j) as u8)
    &&& s.device_id == device_id_of(j, i)
    &&& s.power_pin == j.power_pin
    &&& s.bias@ == bias_of(j)
    &&& s.deadzone == j.deadzone
}

/// Whether the first of two lists is the second with one entry for the battery
/// before it, if there is a battery.
pub open spec fn battery_offset(ble: Option<BleConfig>) -> int {
    if battery_pin(ble) is Some {
        1
    } else {
        0
    }
}

pub open spec fn slots_match(
    ble: Option<BleConfig>,
    joysticks: Seq<JoystickConfig>,
    slots: Seq<SlotExpr>,
) -> bool {
    let k = battery_offset(ble);
    &&& slots.len() == k + joysticks.len()
    &&& k == 1 ==> is_battery_slot(slots[0])
    &&& forall|i: int|
        0 <= i < joysticks.len() ==> is_joystick_slot(joysticks[i], i, #[trigger] slots[k + i])
}

/// The battery's divider: fixed for the internal one, else configured, with one
/// as the default of either side.
pub open spec fn is_battery_processor(b: BleConfig, p: ProcessorExpr) -> bool {
    match p {
        ProcessorExpr::Battery { divider_measured, divider_total } => {
            if b.battery_adc_pin is Some && b.battery_adc_pin->Some_0@ == "vddh"@ {
                divider_measured == 1 && divider_total == 5
            } else {
                &&& divider_measured == match b.adc_divider_measured {
                    Some(n) => n,
                    None => 1,
                }
                &&& divider_total == match b.adc_divider_total {
                    Some(n) => n,
                    None => 1,
                }
            }
        },
        _ => false,
    }
}

pub open spec fn same_rows(a: Seq<Vec<i16>>, b: Seq<Vec<i16>>) -> bool {
    &&& a.len() == b.len()
    &&& forall|i: int| 0 <= i < a.len() ==> (#[trigger] a[i])@ == b[i]@
}

pub open spec fn is_joystick_processor(j: JoystickConfig, i: int, p: ProcessorExpr) -> bool {
    match p {
        ProcessorExpr::Joystick { name, device_id, transform, bias, resolution, deadzone } => {
            &&& name == j.name
            &&& device_id == device_id_of(j, i)
            &&& same_rows(transform@, j.transform@)
            &&& bias@ == j.bias@
            &&& resolution == j.resolution
            &&& deadzone == j.deadzone
        },
        _ => false,
    }
}

pub open spec fn processors_match(
    ble: Option<BleConfig>,
    joysticks: Seq<JoystickConfig>,
    processors: Seq<ProcessorExpr>,
) -> bool {
    let k = battery_offset(ble);
    &&& processors.len() == k + joysticks.len()
    &&& k == 1 ==> is_battery_processor(ble->Some_0, processors[0])
    &&& forall|i: int|
        0 <= i < joysticks.len() ==> is_joystick_processor(
            joysticks[i],
            i,
            #[trigger] processors[k + i],
        )
}

/// Whether `d` is the converter for a battery and some joysticks. With a joystick
/// it is polled often, and power management takes the timing of the first.
pub open spec fn is_device(
    ble: Option<BleConfig>,
    joysticks: Seq<JoystickConfig>,
    d: AdcDeviceExpr,
) -> bool {
    &&& d.channels@ == channels_of(ble, joysticks)
    &&& slots_match(ble, joysticks, d.slots@)
    &&& d.polling_interval_ms == if joysticks.len() == 0 {
        30000u16
    } else {
        20u16
    }
    &&& d.light_sleep_ms == if joysticks.len() == 0 {
        None
    } else {
        Some(350u16)
    }
    &&& d.power == if joysticks.len() == 0 {
        None
    } else {
        Some(
            JoystickPowerConfig {
                polling_rate_hz: joysticks[0].polling_rate_hz,
                idle_polling_rate_hz: joysticks[0].idle_polling_rate_hz,
                sample_settle_us: joysticks[0].sample_settle_us,
                boot_settle_ms: joysticks[0].boot_settle_ms,
            },
        )
    }
}

/// The outcome for a chip: only the nRF52 has such a converter, and without a
/// battery pin or a joystick there is nothing to read.
pub open spec fn adc_outcome(
    joysticks: Seq<JoystickConfig>,
    ble: Option<BleConfig>,
    chip: ChipSeries,
    r: Result<AdcExpr, String>,
) -> bool {
    if chip != ChipSeries::Nrf52 {
        r matches Ok(x) && x.device is None && x.processors@.len() == 0
    } else if first_error(joysticks) is Some {
        r matches Err(e) && first_error(joysticks) == Some(e@)
    } else {
        r matches Ok(x) && processors_match(ble, joysticks, x.processors@) && match x.device {
            None => joysticks.len() == 0 && battery_pin(ble) is None,
            Some(d) => (joysticks.len() > 0 || battery_pin(ble) is Some) && is_device(
                ble,
                joysticks,
                d,
            ),
        }
    }
}

fn copy_rows(rows: &Vec<Vec<i16>>) -> (r: Vec<Vec<i16>>)
    ensures
        same_rows(r@, rows@),
{
    let mut out: Vec<Vec<i16>> = Vec::new();
    let mut i: usize = 0;
    while i < rows.len()
        invariant
            i <= rows@.len(),
            out@.len() == i,
            forall|k: int| 0 <= k < i ==> (#[trigger] out@[k])@ == rows@[k]@,
        decreases rows@.len() - i,
    {
        out.push(vstd::slice::slice_to_vec(rows[i].as_slice()));
        i = i + 1;
    }
    out
}

fn copy_pin(pin: &Option<String>) -> (r: Option<String>)
    ensures
        r == *pin,
{
    match pin {
        Some(p) => Some(p.clone()),
        None => None,
    }
}

fn padded_bias(j: &JoystickConfig) -> (r: [i16; 3])
    ensures
        r@ == bias_of(*j),
{
    let mut bias = [0i16;3];
    let mut i: usize = 0;
    while i < 3 && i < j.bias.len()
        invariant
            i <= 3,
            i <= j.bias@.len(),
            forall|k: int| 0 <= k < i ==> bias@[k] == j.bias@[k],
            forall|k: int| i <= k < 3 ==> bias@[k] == 0,
        decreases 3 - i,
    {
        bias[i] = j.bias[i];
        i = i + 1;
    }
    assert(bias@ =~= bias_of(*j));
    bias
}

fn push_axes(channels: &mut Vec<ChannelExpr>, j: &JoystickConfig, count: usize)
    requires
        count == axis_count(*j),
    ensures
        final(channels)@ == old(channels)@ + axis_channels(*j),
{
    if count > 0 {
        channels.push(ChannelExpr::Pin(j.pin_x.clone()));
    }
    if count > 1 {
        channels.push(ChannelExpr::Pin(j.pin_y.clone()));
    }
    if count > 2 {
        channels.push(ChannelExpr::Pin(j.pin_z.clone()));
    }
    assert(channels@ =~= old(channels)@ + axis_channels(*j));
}

fn enabled_battery_pin(ble: &Option<BleConfig>) -> (r: Option<(&BleConfig, &String)>)
    ensures
        match r {
            Some((b, pin)) => *ble == Some(*b) && battery_pin(*ble) == Some(*pin)
                && b.battery_adc_pin == Some(*pin),
            None => battery_pin(*ble) is None,
        },
{
    match ble {
        Some(b) => {
            if b.enabled {
                match &b.battery_adc_pin {
                    Some(pin) => Some((b, pin)),
                    None => None,
                }
            } else {
                None
            }
        },
        None => None,
    }
}

/// Expand the ADC device configuration: the converter and the processors of what
/// it reads.
pub fn expand_adc_device(
    joystick_config: &Vec<JoystickConfig>,
    ble_config: &Option<BleConfig>,
    chip_model: ChipSeries,
) -> (r: Result<AdcExpr, String>)
    ensures
        adc_outcome(joystick_config@, *ble_config, chip_model, r),
{
    let mut channels: Vec<ChannelExpr> = Vec::new();
    let mut slots: Vec<SlotExpr> = Vec::new();
    let mut processors: Vec<ProcessorExpr> = Vec::new();
    if chip_model != ChipSeries::Nrf52 {
        return Ok(AdcExpr { device: None, processors });
    }
    if let Some((b, pin)) = enabled_battery_pin(ble_config) {
        let internal = same(pin.as_str(), "vddh");
        if internal {
            channels.push(ChannelExpr::VddhDiv5);
            processors.push(ProcessorExpr::Battery { divider_measured: 1, divider_total: 5 });
        } else {
            channels.push(ChannelExpr::Pin(pin.clone()));
            processors.push(
                ProcessorExpr::Battery {
                    divider_measured: b.adc_divider_measured.unwrap_or(1),
                    divider_total: b.adc_divider_total.unwrap_or(1),
                },
            );
        }
        let bias = [0i16;3];
        assert(bias@ =~= Seq::new(3, |i: int| 0i16));
        slots.push(
            SlotExpr {
                event: AnalogEventType::Battery,
                device_id: 0,
                power_pin: None,
                bias,
                deadzone: 0,
            },
        );
    }
    let ghost all = joystick_config@;
    let ghost k = battery_offset(*ble_config);
    proof {
        assert(all.subrange(0, 0) =~= Seq::<JoystickConfig>::empty());
        assert(channels@ =~= battery_channels(*ble_config));
    }
    let mut i: usize = 0;
    while i < joystick_config.len()
        invariant
            i <= joystick_config@.len(),
            all == joystick_config@,
            k == battery_offset(*ble_config),
            chip_model == ChipSeries::Nrf52,
            first_error(all.subrange(0, i as int)) is None,
            channels@ == channels_of(*ble_config, all.subrange(0, i as int)),
            slots_match(*ble_config, all.subrange(0, i as int), slots@),
            processors_match(*ble_config, all.subrange(0, i as int), processors@),
        decreases joystick_config@.len() - i,
    {
        let j = &joystick_config[i];
        let ghost before = all.subrange(0, i as int);
        let ghost after = all.subrange(0, i + 1);
        proof {
            assert(after.drop_last() =~= before);
            assert(after.last() == *j);
            assert(after[0] == all[0]);
        }
        match check_joystick(&joystick_config[0], j) {
            Err(e) => {
                proof {
                    lemma_first_error_stays(all, i + 1);
                }
                return Err(e);
            },
            Ok(()) => {},
        }
        let count: usize = count_axes(j);
        let device_id: u8 = match j.id {
            Some(id) => id,
            None => {
                #[verifier::truncate]
                let place: u8 = i as u8;
                place
            },
        };
        push_axes(&mut channels, j, count);
        let ghost old_slots = slots@;
        let ghost old_processors = processors@;
        slots.push(
            SlotExpr {
                event: AnalogEventType::Joystick(count as u8),
                device_id,
                power_pin: copy_pin(&j.power_pin),
                bias: padded_bias(j),
                deadzone: j.deadzone,
            },
        );
        processors.push(
            ProcessorExpr::Joystick {
                name: j.name.clone(),
                device_id,
                transform: copy_rows(&j.transform),
                bias: vstd::slice::slice_to_vec(j.bias.as_slice()),
                resolution: j.resolution,
                deadzone: j.deadzone,
            },
        );
        proof {
            assert forall|n: int| 0 <= n < after.len() implies is_joystick_slot(
                after[n],
                n,
                #[trigger] slots@[k + n],
            ) by {
                if n < i {
                    assert(before[n] == after[n]);
                    assert(slots@[k + n] == old_slots[k + n]);
                }
            }
            assert forall|n: int| 0 <= n < after.len() implies is_joystick_processor(
                after[n],
                n,
                #[trigger] processors@[k + n],
            ) by {
                if n < i {
                    assert(before[n] == after[n]);
                    assert(processors@[k + n] == old_processors[k + n]);
                }
            }
        }
        i = i + 1;
    }
    assert(all.subrange(0, i as int) =~= all);
    if processors.len() == 0 {
        return Ok(AdcExpr { device: None, processors });
    }
    let mut polling_interval_ms: u16 = 30000;
    let mut light_sleep_ms: Option<u16> = None;
    let mut power: Option<JoystickPowerConfig> = None;
    if joystick_config.len() > 0 {
        let first = &joystick_config[0];
        polling_interval_ms = 20;
        light_sleep_ms = Some(350);
        power =
        Some(
            JoystickPowerConfig {
                polling_rate_hz: first.polling_rate_hz,
                idle_polling_rate_hz: first.idle_polling_rate_hz,
                sample_settle_us: first.sample_settle_us,
                boot_settle_ms: first.boot_settle_ms,
            },
        );
    }
    let device = AdcDeviceExpr { channels, slots, polling_interval_ms, light_sleep_ms, power };
    Ok(AdcExpr { device: Some(device), processors })
}

/// The first error is the same however many joysticks follow.
proof fn lemma_first_error_stays(all: Seq<JoystickConfig>, n: int)
    requires
        0 <= n <= all.len(),
        first_error(all.subrange(0, n)) is Some,
    ensures
        first_error(all) == first_error(all.subrange(0, n)),
    decreases all.len() - n,
{
    if n == all.len() {
        assert(all.subrange(0, n) =~= all);
    } else {
        let next = all.subrange(0, n + 1);
        assert(next.drop_last() =~= all.subrange(0, n));
        lemma_first_error_stays(all, n + 1);
    }
}

// ---------------------------------------------------------------------------
// Laws
// ---------------------------------------------------------------------------

/// Every slot has the channels it reads: the converter has one channel for the
/// battery and one for each axis of each joystick.
pub proof fn law_channels_are_those_of_the_slots(
    ble: Option<BleConfig>,
    joysticks: Seq<JoystickConfig>,
)
    ensures
        channels_of(ble, joysticks).len() == battery_offset(ble) + axes_total(joysticks),
    decreases joysticks.len(),
{
    if joysticks.len() > 0 {
        law_channels_are_those_of_the_slots(ble, joysticks.drop_last());
    }
}

/// Axes of all joysticks together.
pub open spec fn axes_total(joysticks: Seq<JoystickConfig>) -> nat
    decreases joysticks.len(),
{
    if joysticks.len() == 0 {
        0
    } else {
        axes_total(joysticks.drop_last()) + axis_count(joysticks.last())
    }
}

/// The timing of a joystick is accepted exactly where it is polled at all, no faster at rest than
/// in use, and its dead zone leaves something of its axes.
pub proof fn law_a_joystick_is_polled_no_faster_at_rest(j: JoystickConfig)
    ensures
        power_config_error(j) is None <==> 1 <= j.idle_polling_rate_hz <= j.polling_rate_hz
            && j.deadzone <= 32767,
{
}

/// A joystick has the axes of its pins up to the first that is left out.
pub proof fn law_axes_end_at_the_first_pin_left_out(j: JoystickConfig)
    ensures
        axis_count(j) <= 3,
        axis_count(j) >= 1 <==> j.pin_x@ != "_"@,
        axis_count(j) >= 2 <==> j.pin_x@ != "_"@ && j.pin_y@ != "_"@,
        axis_count(j) >= 3 <==> j.pin_x@ != "_"@ && j.pin_y@ != "_"@ && j.pin_z@ != "_"@,
{
}

/// Joysticks are accepted exactly where each of them is: its own timing holds and is that of the
/// first, it has two axes or three, and its bias and transform are of that size.
pub proof fn law_joysticks_are_accepted_where_each_is(joysticks: Seq<JoystickConfig>)
    ensures
        first_error(joysticks) is None <==> forall|i: int|
            0 <= i < joysticks.len() ==> {
                let j = #[trigger] joysticks[i];
                &&& power_config_error(j) is None
                &&& j.polling_rate_hz == joysticks[0].polling_rate_hz
                &&& j.idle_polling_rate_hz == joysticks[0].idle_polling_rate_hz
                &&& j.sample_settle_us == joysticks[0].sample_settle_us
                &&& j.boot_settle_ms == joysticks[0].boot_settle_ms
                &&& axis_count(j) >= 2
                &&& j.bias@.len() == axis_count(j)
                &&& j.transform@.len() == axis_count(j)
                &&& forall|k: int|
                    0 <= k < j.transform@.len() ==> (#[trigger] j.transform@[k])@.len()
                        == axis_count(j)
            },
    decreases joysticks.len(),
{
    if joysticks.len() > 0 {
        let p = joysticks.drop_last();
        let last = joysticks.len() - 1;
        law_joysticks_are_accepted_where_each_is(p);
        assert(joysticks[last] == joysticks.last());
        assert forall|i: int| 0 <= i < p.len() implies #[trigger] p[i] == joysticks[i] by {}
        if p.len() > 0 {
            assert(p[0] == joysticks[0]);
        }
        if first_error(joysticks) is None {
            assert forall|i: int| 0 <= i < joysticks.len() implies joystick_error(
                joysticks[0],
                #[trigger] joysticks[i],
            ) is None by {
                if i < p.len() {
                    assert(p[i] == joysticks[i]);
                }
            }
        } else if first_error(p) is Some {
            assert(!forall|i: int|
                0 <= i < p.len() ==> joystick_error(p[0], #[trigger] p[i]) is None);
            let i = choose|i: int|
                0 <= i < p.len() && joystick_error(p[0], #[trigger] p[i]) is Some;
            assert(joysticks[i] == p[i]);
        }
    }
}

/// The battery is read where BLE is on and names a pin for it: first of all channels, through
/// the internal divider where the pin is the supply itself. Each joystick adds its pins behind,
/// in the order of its axes.
pub proof fn law_channels_come_in_order(
    ble: Option<BleConfig>,
    joysticks: Seq<JoystickConfig>,
    j: JoystickConfig,
    i: int,
)
    ensures
        battery_pin(ble) is Some <==> ble is Some && ble->0.enabled
            && ble->0.battery_adc_pin is Some,
        battery_pin(ble) matches Some(pin) ==> Some(pin) == ble->0.battery_adc_pin && channels_of(
            ble,
            Seq::empty(),
        ).len() == 1 && (if pin@ == "vddh"@ {
            channels_of(ble, Seq::empty())[0] is VddhDiv5
        } else {
            channels_of(ble, Seq::empty())[0] == ChannelExpr::Pin(pin)
        }),
        battery_pin(ble) is None ==> channels_of(ble, Seq::empty()).len() == 0,
        ({
            let before = channels_of(ble, joysticks);
            let after = channels_of(ble, joysticks.push(j));
            let n = before.len() as int;
            &&& after.len() == n + axis_count(j)
            &&& 0 <= i < n ==> after[i] == before[i]
            &&& axis_count(j) > 0 ==> after[n] == ChannelExpr::Pin(j.pin_x)
            &&& axis_count(j) > 1 ==> after[n + 1] == ChannelExpr::Pin(j.pin_y)
            &&& axis_count(j) > 2 ==> after[n + 2] == ChannelExpr::Pin(j.pin_z)
        }),
{
    assert(joysticks.push(j).drop_last() =~= joysticks);
}

/// What is generated for a joystick is its own: its slot and its processor go by its id, or by its
/// place where it has none, and carry its bias, dead zone, transform and resolution.
pub proof fn law_each_joystick_is_generated_as_configured(
    joysticks: Seq<JoystickConfig>,
    ble: Option<BleConfig>,
    x: AdcExpr,
    i: int,
    axis: int,
)
    requires
        adc_outcome(joysticks, ble, ChipSeries::Nrf52, Ok(x)),
        0 <= i < joysticks.len() <= 256,
        0 <= axis < 3,
    ensures
        ({
            let j = joysticks[i];
            let k = if battery_pin(ble) is Some {
                1int
            } else {
                0int
            };
            let id = if j.id is Some {
                j.id->0 as int
            } else {
                i
            };
            &&& x.device is Some
            &&& x.device->0.slots@.len() == k + joysticks.len()
            &&& x.processors@.len() == k + joysticks.len()
            &&& x.device->0.slots@[k + i].event == AnalogEventType::Joystick(axis_count(j) as u8)
            &&& x.device->0.slots@[k + i].device_id == id
            &&& x.device->0.slots@[k + i].power_pin == j.power_pin
            &&& x.device->0.slots@[k + i].deadzone == j.deadzone
            &&& x.device->0.slots@[k + i].bias@[axis] == (if axis < j.bias@.len() {
                j.bias@[axis]
            } else {
                0
            })
            &&& x.processors@[k + i] matches ProcessorExpr::Joystick {
                name,
                device_id,
                transform,
                bias,
                resolution,
                deadzone,
            } && name == j.name && device_id == id && bias@ == j.bias@ && resolution
                == j.resolution && deadzone == j.deadzone && transform@.len() == j.transform@.len()
                && forall|r: int|
                0 <= r < transform@.len() ==> (#[trigger] transform@[r])@ == j.transform@[r]@
            &&& x.device->0.polling_interval_ms == 20
            &&& x.device->0.light_sleep_ms == Some(350u16)
            &&& x.device->0.power matches Some(p) && p.polling_rate_hz
                == joysticks[0].polling_rate_hz && p.idle_polling_rate_hz
                == joysticks[0].idle_polling_rate_hz && p.sample_settle_us
                == joysticks[0].sample_settle_us && p.boot_settle_ms == joysticks[0].boot_settle_ms
        }),
{
    let k = battery_offset(ble);
    assert(is_joystick_slot(joysticks[i], i, x.device->0.slots@[k + i]));
    assert(is_joystick_processor(joysticks[i], i, x.processors@[k + i]));
}

/// What is generated for a battery: its slot and processor come first, the internal divider is
/// by five, and one that is not configured does not divide. Without a joystick it is read every
/// thirty seconds.
pub proof fn law_the_battery_is_generated_first(
    joysticks: Seq<JoystickConfig>,
    ble: Option<BleConfig>,
    x: AdcExpr,
    pin: String,
)
    requires
        adc_outcome(joysticks, ble, ChipSeries::Nrf52, Ok(x)),
        battery_pin(ble) == Some(pin),
    ensures
        x.device is Some,
        x.device->0.slots@[0].event is Battery,
        x.processors@[0] matches ProcessorExpr::Battery { divider_measured, divider_total } && (
        pin@ == "vddh"@ ==> divider_measured == 1 && divider_total == 5) && (pin@ != "vddh"@
            && ble->0.adc_divider_measured is None ==> divider_measured == 1) && (pin@ != "vddh"@
            && ble->0.adc_divider_total is None ==> divider_total == 1) && (pin@ != "vddh"@ && ble->0.adc_divider_measured
            is Some ==> divider_measured
            == ble->0.adc_divider_measured->0) && (pin@ != "vddh"@ && ble->0.adc_divider_total is Some
            ==> divider_total
            == ble->0.adc_divider_total->0),
        joysticks.len() == 0 ==> x.device->0.polling_interval_ms == 30000
            && x.device->0.light_sleep_ms is None && x.device->0.power is None,
{
}

/// A chip without such a converter has nothing generated for it, and neither has one with
/// nothing to read.
pub proof fn law_without_anything_to_read_nothing_is_generated(
    joysticks: Seq<JoystickConfig>,
    ble: Option<BleConfig>,
    chip: ChipSeries,
    r: Result<AdcExpr, String>,
)
    requires
        adc_outcome(joysticks, ble, chip, r),
    ensures
        r is Err ==> chip is Nrf52 && first_error(joysticks) is Some,
        r matches Ok(x) ==> (x.device is Some <==> chip is Nrf52 && (joysticks.len() > 0
            || battery_pin(ble) is Some)),
        r matches Ok(x) ==> (x.device is None ==> x.processors@.len() == 0),
        chip is Nrf52 && first_error(joysticks) is Some ==> r is Err,
{
}

} // verus!
