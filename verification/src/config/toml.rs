//! The sections of `keyboard.toml`, as they were read.
//!
//! A section that failed its own checks holds the message of that failure.

use vstd::prelude::*;

verus! {

/// A duration, in milliseconds.
#[derive(Clone, Copy, Debug, PartialEq, Eq, Structural)]
pub struct DurationMillis(pub u64);

/// A duration that may be left out, in milliseconds.
pub open spec fn millis(d: Option<DurationMillis>) -> Option<u64> {
    match d {
        Some(t) => Some(t.0),
        None => None,
    }
}

pub fn millis_of(d: Option<DurationMillis>) -> (r: Option<u64>)
    ensures
        r == millis(d),
{
    match d {
        Some(t) => Some(t.0),
        None => None,
    }
}

// ---------------------------------------------------------------------------
// [behavior]
// ---------------------------------------------------------------------------

#[derive(Clone, Copy, Debug)]
pub struct TriLayerConfig {
    pub upper: u8,
    pub lower: u8,
    pub adjust: u8,
}

#[derive(Clone, Copy, Debug)]
pub struct OneShotConfig {
    pub timeout: Option<DurationMillis>,
}

#[derive(Clone, Copy, Debug)]
pub struct OneShotModifiersConfig {
    pub activate_on_keypress: Option<bool>,
    pub quick_release: Option<bool>,
}

#[derive(Debug)]
pub struct ComboConfig {
    pub actions: Vec<String>,
    pub output: String,
    pub layer: Option<u8>,
}

#[derive(Debug)]
pub struct CombosConfig {
    pub combos: Vec<ComboConfig>,
    pub timeout: Option<DurationMillis>,
    pub prior_idle_time: Option<DurationMillis>,
}

#[derive(Debug)]
pub enum MacroOperationConfig {
    Tap { keycode: String },
    Down { keycode: String },
    Up { keycode: String },
    Delay { duration: DurationMillis },
    Text { text: String },
}

#[derive(Debug)]
pub struct MacroConfig {
    pub operations: Vec<MacroOperationConfig>,
}

#[derive(Debug)]
pub struct MacrosConfig {
    pub macros: Vec<MacroConfig>,
}

#[derive(Debug)]
pub struct ForkConfig {
    pub trigger: String,
    pub negative_output: String,
    pub positive_output: String,
    pub match_any: Option<String>,
    pub match_none: Option<String>,
    pub kept_modifiers: Option<String>,
    pub bindable: Option<bool>,
}

#[derive(Debug)]
pub struct ForksConfig {
    pub forks: Vec<ForkConfig>,
}

#[derive(Clone, Copy, Debug)]
pub struct MorseProfileConfig {
    pub enable_flow_tap: Option<bool>,
    pub unilateral_tap: Option<bool>,
    pub permissive_hold: Option<bool>,
    pub hold_on_other_press: Option<bool>,
    pub normal_mode: Option<bool>,
    pub hold_timeout: Option<DurationMillis>,
    pub gap_timeout: Option<DurationMillis>,
    pub quick_tap_timeout: Option<DurationMillis>,
}

#[derive(Debug)]
pub struct MorseActionPairConfig {
    pub pattern: String,
    pub action: String,
}

#[derive(Debug)]
pub struct MorseKeyConfig {
    pub profile: Option<String>,
    pub tap: Option<String>,
    pub hold: Option<String>,
    pub hold_after_tap: Option<String>,
    pub double_tap: Option<String>,
    pub tap_actions: Option<Vec<String>>,
    pub hold_actions: Option<Vec<String>>,
    pub morse_actions: Option<Vec<MorseActionPairConfig>>,
}

#[derive(Debug)]
pub struct MorseConfig {
    pub enable_flow_tap: Option<bool>,
    pub prior_idle_time: Option<DurationMillis>,
    pub unilateral_tap: Option<bool>,
    pub permissive_hold: Option<bool>,
    pub hold_on_other_press: Option<bool>,
    pub normal_mode: Option<bool>,
    pub hold_timeout: Option<DurationMillis>,
    pub gap_timeout: Option<DurationMillis>,
    pub quick_tap_timeout: Option<DurationMillis>,
    /// Named profiles; no name occurs twice.
    pub profiles: Option<Vec<(String, MorseProfileConfig)>>,
    pub morses: Option<Vec<MorseKeyConfig>>,
}

/// Whether no name occurs twice.
pub open spec fn names_differ<T>(named: Seq<(String, T)>) -> bool {
    forall|i: int, j: int|
        0 <= i < j < named.len() ==> (#[trigger] named[i]).0@ != (#[trigger] named[j]).0@
}

impl MorseConfig {
    pub open spec fn wf(&self) -> bool {
        self.profiles matches Some(named) ==> names_differ(named@)
    }
}

#[derive(Debug)]
pub struct AutoMouseLayerConfig {
    pub device_id: Option<u8>,
    pub target_layer: u8,
    pub timeout: Option<DurationMillis>,
    pub threshold: Option<u16>,
    pub deactivate_on_key: Option<bool>,
    pub extra_mouse_keys: Option<Vec<String>>,
    pub reset_timeout_on_key: Option<bool>,
}

#[derive(Debug)]
pub struct AutoShiftConfig {
    pub keys: Option<Vec<String>>,
    pub profile: Option<String>,
}

#[derive(Debug)]
pub struct BehaviorConfig {
    pub tri_layer: Option<TriLayerConfig>,
    pub one_shot: Option<OneShotConfig>,
    pub one_shot_modifiers: Option<OneShotModifiersConfig>,
    pub combo: Option<CombosConfig>,
    pub macros: Option<MacrosConfig>,
    pub fork: Option<ForksConfig>,
    pub morse: Option<MorseConfig>,
    pub auto_mouse_layer: Option<Vec<AutoMouseLayerConfig>>,
    pub auto_shift: Option<AutoShiftConfig>,
}

impl BehaviorConfig {
    pub open spec fn wf(&self) -> bool {
        self.morse matches Some(m) ==> m.wf()
    }
}

// ---------------------------------------------------------------------------
// Hardware sections
// ---------------------------------------------------------------------------

#[derive(Clone, Copy, Debug, PartialEq, Eq, Structural)]
pub enum ChipSeries {
    Stm32,
    Nrf52,
    Rp2040,
    Esp32,
}

#[derive(Debug)]
pub struct ChipModel {
    pub series: ChipSeries,
    pub chip: String,
}

/// A section that is handed on as it stands.
#[derive(Debug)]
pub struct Section {
    pub text: String,
}

#[derive(Clone, Copy, Debug)]
pub struct StorageConfig {
    pub enabled: bool,
    pub start_addr: Option<usize>,
    pub num_sectors: Option<u8>,
    pub clear_storage: Option<bool>,
    pub clear_layout: Option<bool>,
}

#[derive(Clone, Copy, Debug, PartialEq, Eq, Structural)]
pub enum ExternalFlashDriver {
    W25q,
    Custom,
}

#[derive(Debug)]
pub struct SpiConfig {
    pub instance: String,
    pub sck: String,
    pub mosi: String,
    pub miso: String,
    pub cs: Option<String>,
}

#[derive(Debug)]
pub struct ExternalFlashTomlConfig {
    pub driver: ExternalFlashDriver,
    pub flash_size: u32,
    pub dfu_partition_size: Option<u32>,
    pub init_fn: Option<String>,
    pub spi: SpiConfig,
}

#[derive(Debug)]
pub struct DfuTomlConfig {
    pub led: Option<String>,
    pub unlock_keys: Option<Vec<[u8; 2]>>,
    pub external_flash: Option<ExternalFlashTomlConfig>,
}

#[derive(Debug)]
pub struct SplitBoardConfig {
    pub dfu: Option<DfuTomlConfig>,
}

#[derive(Debug)]
pub struct SplitConfig {
    pub central: SplitBoardConfig,
    pub peripheral: Vec<SplitBoardConfig>,
}

/// Size of the key matrix.
#[derive(Clone, Copy, Debug)]
pub struct LayoutConfig {
    pub rows: u8,
    pub cols: u8,
}

#[derive(Debug)]
pub struct KeyboardTomlConfig {
    /// `[rmk] morse_profile_max_num`.
    pub morse_profile_max_num: usize,
    pub behavior: Result<BehaviorConfig, String>,
    pub layout: Option<LayoutConfig>,
    pub storage: StorageConfig,
    /// Whether the file has a storage section of its own.
    pub storage_user_set: bool,
    pub dfu: Option<DfuTomlConfig>,
    pub split: Option<SplitConfig>,
    pub chip: Result<ChipModel, String>,
    pub chip_config: Section,
    pub communication: Result<Section, String>,
    pub board: Result<Section, String>,
    pub light: Section,
    pub display: Option<Section>,
    pub output: Result<Vec<Section>, String>,
    pub dependency: Section,
}

// ---------------------------------------------------------------------------
// Copies
// ---------------------------------------------------------------------------

pub(crate) fn copy_strings(v: &Vec<String>) -> (r: Vec<String>)
    ensures
        r@ == v@,
{
    let r = v.clone();
    assert(r@ =~= v@);
    r
}

pub(crate) fn copy_string(s: &Option<String>) -> (r: Option<String>)
    ensures
        r == *s,
{
    match s {
        Some(t) => Some(t.clone()),
        None => None,
    }
}

/// Whether two lists that may be left out hold the same texts.
pub open spec fn same_strings(a: Option<Vec<String>>, b: Option<Vec<String>>) -> bool {
    match (a, b) {
        (Some(x), Some(y)) => x@ == y@,
        (None, None) => true,
        _ => false,
    }
}

pub(crate) fn copy_string_list(v: &Option<Vec<String>>) -> (r: Option<Vec<String>>)
    ensures
        same_strings(r, *v),
{
    match v {
        Some(t) => Some(copy_strings(t)),
        None => None,
    }
}

impl Section {
    pub(crate) fn duplicate(&self) -> (r: Section)
        ensures
            r == *self,
    {
        Section { text: self.text.clone() }
    }
}

} // verus!
