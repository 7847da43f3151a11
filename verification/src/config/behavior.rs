//! Behavioral configuration.

use vstd::prelude::*;
use crate::config::toml::{
    copy_string, copy_string_list, copy_strings, millis, millis_of, names_differ, same_strings,
    AutoMouseLayerConfig, AutoShiftConfig, BehaviorConfig, ComboConfig, CombosConfig, ForkConfig,
    ForksConfig, KeyboardTomlConfig, MacroConfig, MacroOperationConfig, MacrosConfig,
    MorseActionPairConfig, MorseConfig, MorseKeyConfig, MorseProfileConfig,
};
use crate::text::{decimal, decimal_text, same, to_lowercase, unicode_lower};

verus! {

/// Default idle timeout (in milliseconds) for [`AutoMouseLayer`] when not
/// specified in `keyboard.toml`.
pub const DEFAULT_AUTO_MOUSE_LAYER_TIMEOUT_MS: u64 = 500;

/// Default motion threshold for [`AutoMouseLayer`] when not specified.
pub const DEFAULT_AUTO_MOUSE_LAYER_THRESHOLD: u16 = 1;

/// Fallback for `auto_mouse_layer_max_num` when no `keyboard.toml` is loaded.
pub const DEFAULT_AUTO_MOUSE_LAYER_MAX_NUM: usize = 2;

/// Default hold and gap timeout of a morse key, in milliseconds.
pub const DEFAULT_MORSE_TIMEOUT_MS: u64 = 250;

/// Default prior idle time of flow tap, in milliseconds.
pub const DEFAULT_PRIOR_IDLE_TIME_MS: u64 = 120;

/// Resolved behavioral configuration.
#[derive(Debug)]
pub struct Behavior {
    pub tri_layer: Option<[u8; 3]>,
    pub one_shot_timeout_ms: Option<u64>,
    pub one_shot_modifiers: Option<OneShot>,
    pub combos: Option<Combos>,
    pub macros: Option<Macros>,
    pub forks: Option<Forks>,
    pub morse: Option<Morse>,
    pub auto_mouse_layer: Vec<AutoMouseLayer>,
    pub auto_shift: Option<AutoShift>,
}

#[derive(Debug)]
pub struct AutoShift {
    pub alpha: bool,
    pub numeric: bool,
    pub symbols: bool,
    /// Key names outside the groups.
    pub keys: Vec<String>,
    pub profile: Option<String>,
}

#[derive(Debug)]
pub struct AutoMouseLayer {
    pub device_id: Option<u8>,
    pub target_layer: u8,
    pub timeout_ms: u64,
    pub threshold: u16,
    pub deactivate_on_key: bool,
    pub extra_mouse_keys: Vec<String>,
    pub reset_timeout_on_key: bool,
}

#[derive(Clone, Copy, Debug, PartialEq, Eq)]
pub struct OneShot {
    pub activate_on_keypress: Option<bool>,
    pub quick_release: Option<bool>,
}

#[derive(Debug)]
pub struct Combos {
    pub combos: Vec<Combo>,
    pub timeout_ms: Option<u64>,
    pub prior_idle_time_ms: Option<u64>,
}

#[derive(Debug)]
pub struct Combo {
    pub actions: Vec<String>,
    pub output: String,
    pub layer: Option<u8>,
}

#[derive(Debug)]
pub struct Macros {
    pub macros: Vec<Macro>,
}

#[derive(Debug)]
pub struct Macro {
    pub operations: Vec<MacroOperation>,
}

/// Resolved macro operation: all durations are plain milliseconds.
#[derive(Debug)]
pub enum MacroOperation {
    Tap { keycode: String },
    Down { keycode: String },
    Up { keycode: String },
    Delay { duration_ms: u64 },
    Text { text: String },
}

#[derive(Debug)]
pub struct Forks {
    pub forks: Vec<Fork>,
}

#[derive(Debug)]
pub struct Fork {
    pub trigger: String,
    pub negative_output: String,
    pub positive_output: String,
    pub match_any: Option<String>,
    pub match_none: Option<String>,
    pub kept_modifiers: Option<String>,
    pub bindable: bool,
}

#[derive(Debug)]
pub struct Morse {
    pub enable_flow_tap: bool,
    pub prior_idle_time_ms: u64,
    pub default_profile: MorseProfile,
    /// Named profiles; no name occurs twice.
    pub profiles: Vec<(String, MorseProfile)>,
    pub morses: Vec<MorseKey>,
}

impl Morse {
    pub open spec fn wf(&self) -> bool {
        names_differ(self.profiles@)
    }
}

impl Behavior {
    pub open spec fn wf(&self) -> bool {
        self.morse matches Some(m) ==> m.wf()
    }
}

#[derive(Clone, Copy, Debug, PartialEq, Eq)]
pub struct MorseProfile {
    pub enable_flow_tap: Option<bool>,
    pub unilateral_tap: Option<bool>,
    pub permissive_hold: Option<bool>,
    pub hold_on_other_press: Option<bool>,
    pub normal_mode: Option<bool>,
    pub hold_timeout_ms: Option<u64>,
    pub gap_timeout_ms: Option<u64>,
    pub quick_tap_timeout_ms: Option<u64>,
}

#[derive(Debug)]
pub struct MorseKey {
    pub profile: Option<String>,
    pub tap: Option<String>,
    pub hold: Option<String>,
    pub hold_after_tap: Option<String>,
    pub double_tap: Option<String>,
    pub tap_actions: Option<Vec<String>>,
    pub hold_actions: Option<Vec<String>>,
    pub morse_actions: Option<Vec<MorseActionPair>>,
}

#[derive(Debug)]
pub struct MorseActionPair {
    pub pattern: String,
    pub action: String,
}

// ---------------------------------------------------------------------------
// What each section resolves to
// ---------------------------------------------------------------------------

pub open spec fn or<T>(value: Option<T>, default: T) -> T {
    match value {
        Some(v) => v,
        None => default,
    }
}

pub open spec fn combo_resolves(t: ComboConfig, r: Combo) -> bool {
    &&& r.actions@ == t.actions@
    &&& r.output == t.output
    &&& r.layer == t.layer
}

pub open spec fn combos_resolve(t: Option<CombosConfig>, r: Option<Combos>) -> bool {
    match (t, r) {
        (None, None) => true,
        (Some(t), Some(r)) => {
            &&& r.combos@.len() == t.combos@.len()
            &&& forall|i: int|
                0 <= i < t.combos@.len() ==> combo_resolves(t.combos@[i], #[trigger] r.combos@[i])
            &&& r.timeout_ms == millis(t.timeout)
            &&& r.prior_idle_time_ms == millis(t.prior_idle_time)
        },
        _ => false,
    }
}

pub open spec fn resolved_operation(t: MacroOperationConfig) -> MacroOperation {
    match t {
        MacroOperationConfig::Tap { keycode } => MacroOperation::Tap { keycode },
        MacroOperationConfig::Down { keycode } => MacroOperation::Down { keycode },
        MacroOperationConfig::Up { keycode } => MacroOperation::Up { keycode },
        MacroOperationConfig::Delay { duration } => MacroOperation::Delay {
            duration_ms: duration.0,
        },
        MacroOperationConfig::Text { text } => MacroOperation::Text { text },
    }
}

pub open spec fn macro_resolves(t: MacroConfig, r: Macro) -> bool {
    &&& r.operations@.len() == t.operations@.len()
    &&& forall|i: int|
        0 <= i < t.operations@.len() ==> #[trigger] r.operations@[i] == resolved_operation(
            t.operations@[i],
        )
}

pub open spec fn macros_resolve(t: Option<MacrosConfig>, r: Option<Macros>) -> bool {
    match (t, r) {
        (None, None) => true,
        (Some(t), Some(r)) => {
            &&& r.macros@.len() == t.macros@.len()
            &&& forall|i: int|
                0 <= i < t.macros@.len() ==> macro_resolves(t.macros@[i], #[trigger] r.macros@[i])
        },
        _ => false,
    }
}

pub open spec fn resolved_fork(t: ForkConfig) -> Fork {
    Fork {
        trigger: t.trigger,
        negative_output: t.negative_output,
        positive_output: t.positive_output,
        match_any: t.match_any,
        match_none: t.match_none,
        kept_modifiers: t.kept_modifiers,
        bindable: or(t.bindable, false),
    }
}

pub open spec fn forks_resolve(t: Option<ForksConfig>, r: Option<Forks>) -> bool {
    match (t, r) {
        (None, None) => true,
        (Some(t), Some(r)) => {
            &&& r.forks@.len() == t.forks@.len()
            &&& forall|i: int|
                0 <= i < t.forks@.len() ==> #[trigger] r.forks@[i] == resolved_fork(t.forks@[i])
        },
        _ => false,
    }
}

pub open spec fn resolved_profile(t: MorseProfileConfig) -> MorseProfile {
    MorseProfile {
        enable_flow_tap: t.enable_flow_tap,
        unilateral_tap: t.unilateral_tap,
        permissive_hold: t.permissive_hold,
        hold_on_other_press: t.hold_on_other_press,
        normal_mode: t.normal_mode,
        hold_timeout_ms: millis(t.hold_timeout),
        gap_timeout_ms: millis(t.gap_timeout),
        quick_tap_timeout_ms: millis(t.quick_tap_timeout),
    }
}

/// The profile of keys that name none. Its switch and its timeouts are always
/// set.
pub open spec fn default_profile(t: MorseConfig) -> MorseProfile {
    MorseProfile {
        enable_flow_tap: Some(or(t.enable_flow_tap, false)),
        unilateral_tap: t.unilateral_tap,
        permissive_hold: t.permissive_hold,
        hold_on_other_press: t.hold_on_other_press,
        normal_mode: t.normal_mode,
        hold_timeout_ms: Some(or(millis(t.hold_timeout), DEFAULT_MORSE_TIMEOUT_MS)),
        gap_timeout_ms: Some(or(millis(t.gap_timeout), DEFAULT_MORSE_TIMEOUT_MS)),
        quick_tap_timeout_ms: millis(t.quick_tap_timeout),
    }
}

pub open spec fn pairs_resolve(
    t: Option<Vec<MorseActionPairConfig>>,
    r: Option<Vec<MorseActionPair>>,
) -> bool {
    match (t, r) {
        (None, None) => true,
        (Some(t), Some(r)) => {
            &&& r@.len() == t@.len()
            &&& forall|i: int|
                0 <= i < t@.len() ==> (#[trigger] r@[i]) == (MorseActionPair {
                    pattern: t@[i].pattern,
                    action: t@[i].action,
                })
        },
        _ => false,
    }
}

pub open spec fn morse_key_resolves(t: MorseKeyConfig, r: MorseKey) -> bool {
    &&& r.profile == t.profile
    &&& r.tap == t.tap
    &&& r.hold == t.hold
    &&& r.hold_after_tap == t.hold_after_tap
    &&& r.double_tap == t.double_tap
    &&& same_strings(r.tap_actions, t.tap_actions)
    &&& same_strings(r.hold_actions, t.hold_actions)
    &&& pairs_resolve(t.morse_actions, r.morse_actions)
}

/// The named profiles of a section.
pub open spec fn profiles_of(t: MorseConfig) -> Seq<(String, MorseProfileConfig)> {
    match t.profiles {
        Some(p) => p@,
        None => Seq::empty(),
    }
}

pub open spec fn morse_keys_of(t: MorseConfig) -> Seq<MorseKeyConfig> {
    match t.morses {
        Some(m) => m@,
        None => Seq::empty(),
    }
}

pub open spec fn morse_resolves(t: MorseConfig, r: Morse) -> bool {
    &&& r.enable_flow_tap == or(t.enable_flow_tap, false)
    &&& r.prior_idle_time_ms == or(millis(t.prior_idle_time), DEFAULT_PRIOR_IDLE_TIME_MS)
    &&& r.default_profile == default_profile(t)
    &&& r.profiles@.len() == profiles_of(t).len()
    &&& forall|i: int|
        0 <= i < profiles_of(t).len() ==> (#[trigger] r.profiles@[i]) == (
            profiles_of(t)[i].0,
            resolved_profile(profiles_of(t)[i].1),
        )
    &&& r.morses@.len() == morse_keys_of(t).len()
    &&& forall|i: int|
        0 <= i < morse_keys_of(t).len() ==> morse_key_resolves(
            morse_keys_of(t)[i],
            #[trigger] r.morses@[i],
        )
}

/// Whether a section defines a profile of that name.
pub open spec fn has_profile(t: Option<MorseConfig>, name: Seq<char>) -> bool {
    match t {
        Some(m) => exists|i: int|
            0 <= i < profiles_of(m).len() && (#[trigger] profiles_of(m)[i]).0@ == name,
        None => false,
    }
}

pub open spec fn mouse_layers_of(t: Option<Vec<AutoMouseLayerConfig>>) -> Seq<
    AutoMouseLayerConfig,
> {
    match t {
        Some(v) => v@,
        None => Seq::empty(),
    }
}

pub open spec fn mouse_layer_resolves(t: AutoMouseLayerConfig, r: AutoMouseLayer) -> bool {
    &&& r.device_id == t.device_id
    &&& r.target_layer == t.target_layer
    &&& r.timeout_ms == or(millis(t.timeout), DEFAULT_AUTO_MOUSE_LAYER_TIMEOUT_MS)
    &&& r.threshold == or(t.threshold, DEFAULT_AUTO_MOUSE_LAYER_THRESHOLD)
    &&& r.deactivate_on_key == or(t.deactivate_on_key, false)
    &&& r.extra_mouse_keys@ == match t.extra_mouse_keys {
        Some(k) => k@,
        None => Seq::empty(),
    }
    &&& r.reset_timeout_on_key == or(t.reset_timeout_on_key, false)
}

/// A group of keys that auto shift knows by name.
pub open spec fn is_group(lowered: Seq<char>) -> bool {
    lowered == "alpha"@ || lowered == "numeric"@ || lowered == "symbols"@
}

/// Whether one of the first `n` lower-cased names is `group`.
pub open spec fn names_group(lowered: Seq<String>, group: Seq<char>) -> bool {
    exists|i: int| 0 <= i < lowered.len() && (#[trigger] lowered[i])@ == group
}

/// The names that are no groups, in their order.
pub open spec fn other_names(names: Seq<String>, lowered: Seq<String>) -> Seq<String>
    decreases names.len(),
{
    if names.len() == 0 || names.len() != lowered.len() {
        Seq::empty()
    } else {
        let rest = other_names(names.drop_last(), lowered.drop_last());
        if is_group(lowered.last()@) {
            rest
        } else {
            rest.push(names.last())
        }
    }
}

/// Whether each of `lowered` is the lower case of the name in its place.
pub open spec fn are_lowered(names: Seq<String>, lowered: Seq<String>) -> bool {
    &&& lowered.len() == names.len()
    &&& forall|i: int| 0 <= i < names.len() ==> (#[trigger] lowered[i])@ == unicode_lower(names[i]@)
}

/// What auto shift makes of key names whose lower case is `lowered`.
pub open spec fn groups_split(
    names: Seq<String>,
    lowered: Seq<String>,
    r: AutoShift,
) -> bool {
    &&& r.alpha == names_group(lowered, "alpha"@)
    &&& r.numeric == names_group(lowered, "numeric"@)
    &&& r.symbols == names_group(lowered, "symbols"@)
    &&& r.keys@ == other_names(names, lowered)
}

/// An auto shift section without key names shifts all groups.
pub open spec fn all_groups(profile: Option<String>, r: AutoShift) -> bool {
    r.alpha && r.numeric && r.symbols && r.keys@.len() == 0 && r.profile == profile
}

pub open spec fn auto_shift_resolves(t: Option<AutoShiftConfig>, r: Option<AutoShift>) -> bool {
    match (t, r) {
        (None, None) => true,
        (Some(t), Some(r)) => {
            &&& r.profile == t.profile
            &&& match t.keys {
                None => all_groups(t.profile, r),
                Some(names) => exists|lowered: Seq<String>| #[trigger]
                    are_lowered(names@, lowered) && groups_split(names@, lowered, r),
            }
        },
        _ => false,
    }
}

// ---------------------------------------------------------------------------
// Messages
// ---------------------------------------------------------------------------

pub open spec fn too_many_profiles_message(count: nat, max: nat) -> Seq<char> {
    "behavior.morse.profiles defines "@ + decimal(count)
        + " profiles, but `[rmk] morse_profile_max_num` is "@ + decimal(max)
        + ". Raise it in keyboard.toml"@
}

pub open spec fn unknown_auto_shift_profile_message(profile: Seq<char>) -> Seq<char> {
    "behavior.auto_shift.profile `"@ + profile + "` is not found in behavior.morse.profiles"@
}

/// Why a section cannot be resolved, if it cannot: more named profiles than the
/// profile table holds, an unknown auto shift profile, or auto shift without
/// keys.
pub open spec fn behavior_error(t: BehaviorConfig, max: nat) -> Option<Seq<char>> {
    if t.morse is Some && profiles_of(t.morse->Some_0).len() > max {
        Some(too_many_profiles_message(profiles_of(t.morse->Some_0).len(), max))
    } else {
        match t.auto_shift {
            None => None,
            Some(a) => if a.profile is Some && !has_profile(t.morse, a.profile->Some_0@) {
                Some(unknown_auto_shift_profile_message(a.profile->Some_0@))
            } else if a.keys is Some && a.keys->Some_0@.len() == 0 {
                Some("behavior.auto_shift.keys is empty"@)
            } else {
                None
            },
        }
    }
}

/// Whether `r` is what a section without errors resolves to.
pub open spec fn behavior_resolves(t: BehaviorConfig, r: Behavior) -> bool {
    &&& match (t.tri_layer, r.tri_layer) {
        (None, None) => true,
        (Some(l), Some(a)) => a@ == seq![l.upper, l.lower, l.adjust],
        _ => false,
    }
    &&& r.one_shot_timeout_ms == match t.one_shot {
        Some(o) => millis(o.timeout),
        None => None,
    }
    &&& r.one_shot_modifiers == match t.one_shot_modifiers {
        Some(o) => Some(
            OneShot {
                activate_on_keypress: o.activate_on_keypress,
                quick_release: o.quick_release,
            },
        ),
        None => None,
    }
    &&& combos_resolve(t.combo, r.combos)
    &&& macros_resolve(t.macros, r.macros)
    &&& forks_resolve(t.fork, r.forks)
    &&& match (t.morse, r.morse) {
        (None, None) => true,
        (Some(t), Some(r)) => morse_resolves(t, r),
        _ => false,
    }
    &&& r.auto_mouse_layer@.len() == mouse_layers_of(t.auto_mouse_layer).len()
    &&& forall|i: int|
        0 <= i < mouse_layers_of(t.auto_mouse_layer).len() ==> mouse_layer_resolves(
            mouse_layers_of(t.auto_mouse_layer)[i],
            #[trigger] r.auto_mouse_layer@[i],
        )
    &&& auto_shift_resolves(t.auto_shift, r.auto_shift)
}

// ---------------------------------------------------------------------------
// Resolving
// ---------------------------------------------------------------------------

fn resolve_combos(t: &CombosConfig) -> (r: Combos)
    ensures
        combos_resolve(Some(*t), Some(r)),
{
    let mut combos: Vec<Combo> = Vec::new();
    let mut i: usize = 0;
    while i < t.combos.len()
        invariant
            i <= t.combos@.len(),
            combos@.len() == i,
            forall|j: int| 0 <= j < i ==> combo_resolves(t.combos@[j], #[trigger] combos@[j]),
        decreases t.combos@.len() - i,
    {
        let c = &t.combos[i];
        combos.push(
            Combo { actions: copy_strings(&c.actions), output: c.output.clone(), layer: c.layer },
        );
        i = i + 1;
    }
    Combos {
        combos,
        timeout_ms: millis_of(t.timeout),
        prior_idle_time_ms: millis_of(t.prior_idle_time),
    }
}

pub fn resolve_macro_operation(op: &MacroOperationConfig) -> (r: MacroOperation)
    ensures
        r == resolved_operation(*op),
{
    match op {
        MacroOperationConfig::Tap { keycode } => MacroOperation::Tap { keycode: keycode.clone() },
        MacroOperationConfig::Down { keycode } => MacroOperation::Down {
            keycode: keycode.clone(),
        },
        MacroOperationConfig::Up { keycode } => MacroOperation::Up { keycode: keycode.clone() },
        MacroOperationConfig::Delay { duration } => MacroOperation::Delay {
            duration_ms: duration.0,
        },
        MacroOperationConfig::Text { text } => MacroOperation::Text { text: text.clone() },
    }
}

fn resolve_macro(t: &MacroConfig) -> (r: Macro)
    ensures
        macro_resolves(*t, r),
{
    let mut operations: Vec<MacroOperation> = Vec::new();
    let mut i: usize = 0;
    while i < t.operations.len()
        invariant
            i <= t.operations@.len(),
            operations@.len() == i,
            forall|j: int|
                0 <= j < i ==> #[trigger] operations@[j] == resolved_operation(t.operations@[j]),
        decreases t.operations@.len() - i,
    {
        operations.push(resolve_macro_operation(&t.operations[i]));
        i = i + 1;
    }
    Macro { operations }
}

fn resolve_macros(t: &MacrosConfig) -> (r: Macros)
    ensures
        macros_resolve(Some(*t), Some(r)),
{
    let mut macros: Vec<Macro> = Vec::new();
    let mut i: usize = 0;
    while i < t.macros.len()
        invariant
            i <= t.macros@.len(),
            macros@.len() == i,
            forall|j: int| 0 <= j < i ==> macro_resolves(t.macros@[j], #[trigger] macros@[j]),
        decreases t.macros@.len() - i,
    {
        macros.push(resolve_macro(&t.macros[i]));
        i = i + 1;
    }
    Macros { macros }
}

fn resolve_forks(t: &ForksConfig) -> (r: Forks)
    ensures
        forks_resolve(Some(*t), Some(r)),
{
    let mut forks: Vec<Fork> = Vec::new();
    let mut i: usize = 0;
    while i < t.forks.len()
        invariant
            i <= t.forks@.len(),
            forks@.len() == i,
            forall|j: int| 0 <= j < i ==> #[trigger] forks@[j] == resolved_fork(t.forks@[j]),
        decreases t.forks@.len() - i,
    {
        let f = &t.forks[i];
        forks.push(
            Fork {
                trigger: f.trigger.clone(),
                negative_output: f.negative_output.clone(),
                positive_output: f.positive_output.clone(),
                match_any: copy_string(&f.match_any),
                match_none: copy_string(&f.match_none),
                kept_modifiers: copy_string(&f.kept_modifiers),
                bindable: f.bindable.unwrap_or(false),
            },
        );
        i = i + 1;
    }
    Forks { forks }
}

pub fn resolve_morse_profile(p: &MorseProfileConfig) -> (r: MorseProfile)
    ensures
        r == resolved_profile(*p),
{
    MorseProfile {
        enable_flow_tap: p.enable_flow_tap,
        unilateral_tap: p.unilateral_tap,
        permissive_hold: p.permissive_hold,
        hold_on_other_press: p.hold_on_other_press,
        normal_mode: p.normal_mode,
        hold_timeout_ms: millis_of(p.hold_timeout),
        gap_timeout_ms: millis_of(p.gap_timeout),
        quick_tap_timeout_ms: millis_of(p.quick_tap_timeout),
    }
}

fn resolve_pairs(t: &Option<Vec<MorseActionPairConfig>>) -> (r: Option<Vec<MorseActionPair>>)
    ensures
        pairs_resolve(*t, r),
{
    match t {
        None => None,
        Some(pairs) => {
            let mut out: Vec<MorseActionPair> = Vec::new();
            let mut i: usize = 0;
            while i < pairs.len()
                invariant
                    i <= pairs@.len(),
                    out@.len() == i,
                    forall|j: int|
                        0 <= j < i ==> (#[trigger] out@[j]) == (MorseActionPair {
                            pattern: pairs@[j].pattern,
                            action: pairs@[j].action,
                        }),
                decreases pairs@.len() - i,
            {
                let p = &pairs[i];
                out.push(MorseActionPair { pattern: p.pattern.clone(), action: p.action.clone() });
                i = i + 1;
            }
            Some(out)
        },
    }
}

fn resolve_morse_key(t: &MorseKeyConfig) -> (r: MorseKey)
    ensures
        morse_key_resolves(*t, r),
{
    MorseKey {
        profile: copy_string(&t.profile),
        tap: copy_string(&t.tap),
        hold: copy_string(&t.hold),
        hold_after_tap: copy_string(&t.hold_after_tap),
        double_tap: copy_string(&t.double_tap),
        tap_actions: copy_string_list(&t.tap_actions),
        hold_actions: copy_string_list(&t.hold_actions),
        morse_actions: resolve_pairs(&t.morse_actions),
    }
}

fn resolve_morse(t: &MorseConfig) -> (r: Morse)
    ensures
        morse_resolves(*t, r),
        t.wf() ==> r.wf(),
{
    let mut profiles: Vec<(String, MorseProfile)> = Vec::new();
    if let Some(named) = &t.profiles {
        let mut i: usize = 0;
        while i < named.len()
            invariant
                i <= named@.len(),
                named@ == profiles_of(*t),
                profiles@.len() == i,
                forall|j: int|
                    0 <= j < i ==> (#[trigger] profiles@[j]) == (
                        profiles_of(*t)[j].0,
                        resolved_profile(profiles_of(*t)[j].1),
                    ),
            decreases named@.len() - i,
        {
            let entry = &named[i];
            profiles.push((entry.0.clone(), resolve_morse_profile(&entry.1)));
            i = i + 1;
        }
    }
    let mut morses: Vec<MorseKey> = Vec::new();
    if let Some(keys) = &t.morses {
        let mut i: usize = 0;
        while i < keys.len()
            invariant
                i <= keys@.len(),
                keys@ == morse_keys_of(*t),
                morses@.len() == i,
                forall|j: int|
                    0 <= j < i ==> morse_key_resolves(morse_keys_of(*t)[j], #[trigger] morses@[j]),
            decreases keys@.len() - i,
        {
            morses.push(resolve_morse_key(&keys[i]));
            i = i + 1;
        }
    }
    let enable_flow_tap = t.enable_flow_tap.unwrap_or(false);
    Morse {
        enable_flow_tap,
        prior_idle_time_ms: millis_of(t.prior_idle_time).unwrap_or(DEFAULT_PRIOR_IDLE_TIME_MS),
        default_profile: MorseProfile {
            enable_flow_tap: Some(enable_flow_tap),
            unilateral_tap: t.unilateral_tap,
            permissive_hold: t.permissive_hold,
            hold_on_other_press: t.hold_on_other_press,
            normal_mode: t.normal_mode,
            hold_timeout_ms: Some(millis_of(t.hold_timeout).unwrap_or(DEFAULT_MORSE_TIMEOUT_MS)),
            gap_timeout_ms: Some(millis_of(t.gap_timeout).unwrap_or(DEFAULT_MORSE_TIMEOUT_MS)),
            quick_tap_timeout_ms: millis_of(t.quick_tap_timeout),
        },
        profiles,
        morses,
    }
}

fn knows_profile(t: &Option<MorseConfig>, name: &str) -> (r: bool)
    ensures
        r == has_profile(*t, name@),
{
    if let Some(m) = t {
        if let Some(named) = &m.profiles {
            let mut i: usize = 0;
            while i < named.len()
                invariant
                    i <= named@.len(),
                    *t == Some(*m),
                    named@ == profiles_of(*m),
                    forall|j: int| 0 <= j < i ==> (#[trigger] profiles_of(*m)[j]).0@ != name@,
                decreases named@.len() - i,
            {
                if same(named[i].0.as_str(), name) {
                    assert(profiles_of(*m)[i as int].0@ == name@);
                    return true;
                }
                i = i + 1;
            }
        }
    }
    false
}

fn resolve_mouse_layers(t: &Option<Vec<AutoMouseLayerConfig>>) -> (r: Vec<AutoMouseLayer>)
    ensures
        r@.len() == mouse_layers_of(*t).len(),
        forall|i: int|
            0 <= i < mouse_layers_of(*t).len() ==> mouse_layer_resolves(
                mouse_layers_of(*t)[i],
                #[trigger] r@[i],
            ),
{
    let mut out: Vec<AutoMouseLayer> = Vec::new();
    if let Some(layers) = t {
        let mut i: usize = 0;
        while i < layers.len()
            invariant
                i <= layers@.len(),
                layers@ == mouse_layers_of(*t),
                out@.len() == i,
                forall|j: int|
                    0 <= j < i ==> mouse_layer_resolves(mouse_layers_of(*t)[j], #[trigger] out@[j]),
            decreases layers@.len() - i,
        {
            let a = &layers[i];
            let extra_mouse_keys = match &a.extra_mouse_keys {
                Some(keys) => copy_strings(keys),
                None => Vec::new(),
            };
            out.push(
                AutoMouseLayer {
                    device_id: a.device_id,
                    target_layer: a.target_layer,
                    timeout_ms: millis_of(a.timeout).unwrap_or(DEFAULT_AUTO_MOUSE_LAYER_TIMEOUT_MS),
                    threshold: a.threshold.unwrap_or(DEFAULT_AUTO_MOUSE_LAYER_THRESHOLD),
                    deactivate_on_key: a.deactivate_on_key.unwrap_or(false),
                    extra_mouse_keys,
                    reset_timeout_on_key: a.reset_timeout_on_key.unwrap_or(false),
                },
            );
            i = i + 1;
        }
    }
    out
}

/// Sorts the key names of an auto shift section: groups set their switch, other
/// names stay. `lowered` holds the names in lower case.
pub fn split_key_groups(
    names: &Vec<String>,
    lowered: &Vec<String>,
    profile: Option<String>,
) -> (r: AutoShift)
    requires
        names@.len() == lowered@.len(),
    ensures
        groups_split(names@, lowered@, r),
        r.profile == profile,
{
    let mut r = AutoShift {
        alpha: false,
        numeric: false,
        symbols: false,
        keys: Vec::new(),
        profile,
    };
    let mut i: usize = 0;
    proof {
        lemma_groups_differ();
    }
    while i < names.len()
        invariant
            names@.len() == lowered@.len(),
            i <= names@.len(),
            r.profile == profile,
            groups_split(names@.subrange(0, i as int), lowered@.subrange(0, i as int), r),
            "alpha"@ != "numeric"@,
            "alpha"@ != "symbols"@,
            "numeric"@ != "symbols"@,
        decreases names@.len() - i,
    {
        let low = lowered[i].as_str();
        let ghost before = lowered@.subrange(0, i as int);
        let ghost after = lowered@.subrange(0, i + 1);
        proof {
            assert(after.drop_last() =~= before);
            assert(names@.subrange(0, i + 1).drop_last() =~= names@.subrange(0, i as int));
            assert(after.last()@ == low@);
            assert forall|group: Seq<char>| #[trigger]
                names_group(after, group) == (names_group(before, group) || low@ == group) by {
                if names_group(before, group) {
                    let k = choose|k: int|
                        0 <= k < before.len() && (#[trigger] before[k])@ == group;
                    assert(after[k]@ == group);
                }
                if low@ == group {
                    assert(after[i as int]@ == group);
                }
                if names_group(after, group) && low@ != group {
                    let k = choose|k: int|
                        0 <= k < after.len() && (#[trigger] after[k])@ == group;
                    assert(before[k]@ == group);
                }
            }
        }
        if same(low, "alpha") {
            r.alpha = true;
        } else if same(low, "numeric") {
            r.numeric = true;
        } else if same(low, "symbols") {
            r.symbols = true;
        } else {
            r.keys.push(names[i].clone());
        }
        i = i + 1;
    }
    assert(names@.subrange(0, i as int) =~= names@);
    assert(lowered@.subrange(0, i as int) =~= lowered@);
    r
}

proof fn lemma_groups_differ()
    ensures
        "alpha"@ != "numeric"@,
        "alpha"@ != "symbols"@,
        "numeric"@ != "symbols"@,
{
    reveal_strlit("alpha");
    reveal_strlit("numeric");
    reveal_strlit("symbols");
    assert("alpha"@.len() == 5);
    assert("numeric"@[0] == 'n');
    assert("symbols"@[0] == 's');
}

fn lower_all(names: &Vec<String>) -> (r: Vec<String>)
    ensures
        are_lowered(names@, r@),
{
    let mut out: Vec<String> = Vec::new();
    let mut i: usize = 0;
    while i < names.len()
        invariant
            i <= names@.len(),
            out@.len() == i,
            forall|j: int| 0 <= j < i ==> (#[trigger] out@[j])@ == unicode_lower(names@[j]@),
        decreases names@.len() - i,
    {
        out.push(to_lowercase(names[i].as_str()));
        i = i + 1;
    }
    out
}

fn too_many_profiles(count: usize, max: usize) -> (r: String)
    ensures
        r@ == too_many_profiles_message(count as nat, max as nat),
{
    let mut s = String::from_str("behavior.morse.profiles defines ");
    s.append(decimal_text(count as u64).as_str());
    s.append(" profiles, but `[rmk] morse_profile_max_num` is ");
    s.append(decimal_text(max as u64).as_str());
    s.append(". Raise it in keyboard.toml");
    s
}

fn unknown_auto_shift_profile(profile: &str) -> (r: String)
    ensures
        r@ == unknown_auto_shift_profile_message(profile@),
{
    let mut s = String::from_str("behavior.auto_shift.profile `");
    s.append(profile);
    s.append("` is not found in behavior.morse.profiles");
    s
}

fn resolve_auto_shift(a: &AutoShiftConfig) -> (r: AutoShift)
    ensures
        auto_shift_resolves(Some(*a), Some(r)),
{
    match &a.keys {
        None => AutoShift {
            alpha: true,
            numeric: true,
            symbols: true,
            keys: Vec::new(),
            profile: copy_string(&a.profile),
        },
        Some(names) => {
            let lowered = lower_all(names);
            let r = split_key_groups(names, &lowered, copy_string(&a.profile));
            assert(are_lowered(names@, lowered@));
            r
        },
    }
}

/// Resolves a behavior section; `max` is the capacity of the profile table.
pub fn resolve_behavior(t: &BehaviorConfig, max: usize) -> (r: Result<Behavior, String>)
    ensures
        match r {
            Ok(b) => behavior_error(*t, max as nat) is None && behavior_resolves(*t, b),
            Err(e) => behavior_error(*t, max as nat) == Some(e@),
        },
        t.wf() ==> (r matches Ok(b) ==> b.wf()),
{
    // Named profiles are interned into the fixed-capacity morse profile table;
    // overflowing it would silently drop profiles at runtime.
    let morse = match &t.morse {
        Some(m) => {
            let resolved = resolve_morse(m);
            if resolved.profiles.len() > max {
                return Err(too_many_profiles(resolved.profiles.len(), max));
            }
            Some(resolved)
        },
        None => None,
    };
    let auto_shift = match &t.auto_shift {
        Some(a) => {
            if let Some(profile) = &a.profile {
                if !knows_profile(&t.morse, profile.as_str()) {
                    return Err(unknown_auto_shift_profile(profile.as_str()));
                }
            }
            if let Some(names) = &a.keys {
                if names.len() == 0 {
                    return Err(String::from_str("behavior.auto_shift.keys is empty"));
                }
            }
            Some(resolve_auto_shift(a))
        },
        None => None,
    };
    let tri_layer = match t.tri_layer {
        Some(l) => {
            let a = [l.upper, l.lower, l.adjust];
            assert(a@ =~= seq![l.upper, l.lower, l.adjust]);
            Some(a)
        },
        None => None,
    };
    let one_shot_timeout_ms = match t.one_shot {
        Some(o) => millis_of(o.timeout),
        None => None,
    };
    let one_shot_modifiers = match t.one_shot_modifiers {
        Some(o) => Some(
            OneShot {
                activate_on_keypress: o.activate_on_keypress,
                quick_release: o.quick_release,
            },
        ),
        None => None,
    };
    let combos = match &t.combo {
        Some(c) => Some(resolve_combos(c)),
        None => None,
    };
    let macros = match &t.macros {
        Some(m) => Some(resolve_macros(m)),
        None => None,
    };
    let forks = match &t.fork {
        Some(f) => Some(resolve_forks(f)),
        None => None,
    };
    let auto_mouse_layer = resolve_mouse_layers(&t.auto_mouse_layer);
    Ok(
        Behavior {
            tri_layer,
            one_shot_timeout_ms,
            one_shot_modifiers,
            combos,
            macros,
            forks,
            morse,
            auto_mouse_layer,
            auto_shift,
        },
    )
}

impl KeyboardTomlConfig {
    /// Resolve behavioral configuration from TOML config.
    pub fn behavior(&self) -> (r: Result<Behavior, String>)
        ensures
            match (self.behavior, r) {
                (Err(e), Err(f)) => f == e,
                (Ok(t), Ok(b)) => behavior_error(t, self.morse_profile_max_num as nat) is None
                    && behavior_resolves(t, b),
                (Ok(t), Err(e)) => behavior_error(t, self.morse_profile_max_num as nat) == Some(e@),
                (Err(_), Ok(_)) => false,
            },
            (self.behavior matches Ok(t) ==> t.wf()) ==> (r matches Ok(b) ==> b.wf()),
    {
        match &self.behavior {
            Err(e) => Err(e.clone()),
            Ok(t) => resolve_behavior(t, self.morse_profile_max_num),
        }
    }
}

// ---------------------------------------------------------------------------
// Laws
// ---------------------------------------------------------------------------

/// A resolved section keeps what the file sets: the three layers in their order, the one-shot
/// settings, and each combo, macro and fork in its place with all its parts. A fork is bindable
/// only where it says so.
pub proof fn law_what_the_file_sets_is_kept(t: BehaviorConfig, r: Behavior, i: int, j: int)
    requires
        behavior_resolves(t, r),
    ensures
        t.tri_layer matches Some(l) ==> r.tri_layer is Some && r.tri_layer->0@[0] == l.upper
            && r.tri_layer->0@[1] == l.lower && r.tri_layer->0@[2] == l.adjust,
        r.tri_layer is Some ==> t.tri_layer is Some,
        r.one_shot_timeout_ms is Some <==> t.one_shot is Some && t.one_shot->0.timeout is Some,
        r.one_shot_timeout_ms matches Some(ms) ==> ms == t.one_shot->0.timeout->Some_0.0,
        r.one_shot_modifiers is Some <==> t.one_shot_modifiers is Some,
        r.one_shot_modifiers matches Some(o) ==> o.activate_on_keypress
            == t.one_shot_modifiers->0.activate_on_keypress && o.quick_release
            == t.one_shot_modifiers->0.quick_release,
        r.combos is Some <==> t.combo is Some,
        r.combos matches Some(c) ==> {
            let from = t.combo->0;
            &&& c.timeout_ms is Some <==> from.timeout is Some
            &&& c.timeout_ms matches Some(ms) ==> ms == from.timeout->Some_0.0
            &&& c.prior_idle_time_ms is Some <==> from.prior_idle_time is Some
            &&& c.prior_idle_time_ms matches Some(ms) ==> ms == from.prior_idle_time->Some_0.0
            &&& c.combos@.len() == from.combos@.len()
            &&& 0 <= i < from.combos@.len() ==> c.combos@[i].actions@ == from.combos@[i].actions@
                && c.combos@[i].output@ == from.combos@[i].output@ && c.combos@[i].layer
                == from.combos@[i].layer
        },
        r.macros is Some <==> t.macros is Some,
        r.macros matches Some(m) ==> {
            let from = t.macros->0;
            &&& m.macros@.len() == from.macros@.len()
            &&& 0 <= i < from.macros@.len() ==> {
                let ops = m.macros@[i].operations@;
                let set = from.macros@[i].operations@;
                &&& ops.len() == set.len()
                &&& 0 <= j < set.len() ==> match set[j] {
                    MacroOperationConfig::Tap { keycode: k } => ops[j] matches MacroOperation::Tap {
                        keycode,
                    } && keycode == k,
                    MacroOperationConfig::Down { keycode: k } => ops[j] matches
                        MacroOperation::Down { keycode } && keycode == k,
                    MacroOperationConfig::Up { keycode: k } => ops[j] matches MacroOperation::Up {
                        keycode,
                    } && keycode == k,
                    MacroOperationConfig::Delay { duration } => ops[j] matches
                        MacroOperation::Delay { duration_ms } && duration_ms == duration.0,
                    MacroOperationConfig::Text { text: x } => ops[j] matches MacroOperation::Text {
                        text,
                    } && text == x,
                }
            }
        },
        r.forks is Some <==> t.fork is Some,
        r.forks matches Some(f) ==> {
            let from = t.fork->0;
            &&& f.forks@.len() == from.forks@.len()
            &&& 0 <= i < from.forks@.len() ==> {
                let fork = f.forks@[i];
                let set = from.forks@[i];
                &&& fork.trigger == set.trigger
                &&& fork.negative_output == set.negative_output
                &&& fork.positive_output == set.positive_output
                &&& fork.match_any == set.match_any
                &&& fork.match_none == set.match_none
                &&& fork.kept_modifiers == set.kept_modifiers
                &&& fork.bindable <==> set.bindable == Some(true)
            }
        },
{
    if r.macros is Some && 0 <= i < t.macros->0.macros@.len() {
        assert(macro_resolves(t.macros->0.macros@[i], r.macros->0.macros@[i]));
        if 0 <= j < t.macros->0.macros@[i].operations@.len() {
            assert(r.macros->0.macros@[i].operations@[j] == resolved_operation(
                t.macros->0.macros@[i].operations@[j],
            ));
        }
    }
    if r.combos is Some && 0 <= i < t.combo->0.combos@.len() {
        assert(combo_resolves(t.combo->0.combos@[i], r.combos->0.combos@[i]));
    }
    if r.forks is Some && 0 <= i < t.fork->0.forks@.len() {
        assert(r.forks->0.forks@[i] == resolved_fork(t.fork->0.forks@[i]));
    }
}

/// What a morse section resolves to: holds and gaps last 250 milliseconds and flow tap wants
/// 120 milliseconds of rest unless the file says otherwise, and flow tap is off unless it is
/// switched on. A named profile keeps just what it sets, and so does each key.
pub proof fn law_a_morse_section_has_its_defaults(t: MorseConfig, r: Morse, i: int)
    requires
        morse_resolves(t, r),
    ensures
        r.enable_flow_tap <==> t.enable_flow_tap == Some(true),
        r.default_profile.enable_flow_tap == Some(r.enable_flow_tap),
        r.prior_idle_time_ms == (if t.prior_idle_time is Some {
            t.prior_idle_time->Some_0.0
        } else {
            120
        }),
        r.default_profile.hold_timeout_ms == Some(
            if t.hold_timeout is Some {
                t.hold_timeout->Some_0.0
            } else {
                250
            },
        ),
        r.default_profile.gap_timeout_ms == Some(
            if t.gap_timeout is Some {
                t.gap_timeout->Some_0.0
            } else {
                250
            },
        ),
        r.default_profile.quick_tap_timeout_ms is Some <==> t.quick_tap_timeout is Some,
        r.default_profile.quick_tap_timeout_ms matches Some(ms) ==> ms == t.quick_tap_timeout->Some_0.0,
        r.default_profile.unilateral_tap == t.unilateral_tap,
        r.default_profile.permissive_hold == t.permissive_hold,
        r.default_profile.hold_on_other_press == t.hold_on_other_press,
        r.default_profile.normal_mode == t.normal_mode,
        t.profiles is None ==> r.profiles@.len() == 0,
        t.profiles matches Some(named) ==> r.profiles@.len() == named@.len() && (0 <= i
            < named@.len() ==> {
            let (name, p) = r.profiles@[i];
            let set = named@[i].1;
            &&& name@ == named@[i].0@
            &&& p.enable_flow_tap == set.enable_flow_tap
            &&& p.unilateral_tap == set.unilateral_tap
            &&& p.permissive_hold == set.permissive_hold
            &&& p.hold_on_other_press == set.hold_on_other_press
            &&& p.normal_mode == set.normal_mode
            &&& p.hold_timeout_ms is Some <==> set.hold_timeout is Some
            &&& p.hold_timeout_ms matches Some(ms) ==> ms == set.hold_timeout->Some_0.0
            &&& p.gap_timeout_ms is Some <==> set.gap_timeout is Some
            &&& p.gap_timeout_ms matches Some(ms) ==> ms == set.gap_timeout->Some_0.0
            &&& p.quick_tap_timeout_ms is Some <==> set.quick_tap_timeout is Some
            &&& p.quick_tap_timeout_ms matches Some(ms) ==> ms == set.quick_tap_timeout->Some_0.0
        }),
        t.morses is None ==> r.morses@.len() == 0,
        t.morses matches Some(keys) ==> r.morses@.len() == keys@.len() && (0 <= i < keys@.len()
            ==> {
            let key = r.morses@[i];
            let set = keys@[i];
            &&& key.profile == set.profile
            &&& key.tap == set.tap
            &&& key.hold == set.hold
            &&& key.hold_after_tap == set.hold_after_tap
            &&& key.double_tap == set.double_tap
            &&& key.tap_actions is Some <==> set.tap_actions is Some
            &&& key.tap_actions matches Some(a) ==> a@ == set.tap_actions->0@
            &&& key.hold_actions is Some <==> set.hold_actions is Some
            &&& key.hold_actions matches Some(a) ==> a@ == set.hold_actions->0@
            &&& key.morse_actions is Some <==> set.morse_actions is Some
            &&& key.morse_actions matches Some(a) ==> a@.len() == set.morse_actions->0@.len()
                && forall|k: int|
                0 <= k < a@.len() ==> (#[trigger] a@[k]).pattern == set.morse_actions->0@[k].pattern
                    && a@[k].action == set.morse_actions->0@[k].action
        }),
{
    if t.profiles is Some && 0 <= i < t.profiles->0@.len() {
        assert(r.profiles@[i] == (profiles_of(t)[i].0, resolved_profile(profiles_of(t)[i].1)));
    }
    if t.morses is Some && 0 <= i < t.morses->0@.len() {
        assert(morse_key_resolves(morse_keys_of(t)[i], r.morses@[i]));
    }
}

/// A mouse layer lasts 500 milliseconds after a motion of at least one count, stays on when a
/// key is pressed and is not prolonged by one, unless the file says otherwise.
pub proof fn law_a_mouse_layer_has_its_defaults(t: AutoMouseLayerConfig, r: AutoMouseLayer)
    requires
        mouse_layer_resolves(t, r),
    ensures
        r.device_id == t.device_id,
        r.target_layer == t.target_layer,
        r.timeout_ms == (if t.timeout is Some {
            t.timeout->Some_0.0
        } else {
            500
        }),
        r.threshold == (if t.threshold is Some {
            t.threshold->0
        } else {
            1
        }),
        r.deactivate_on_key <==> t.deactivate_on_key == Some(true),
        r.reset_timeout_on_key <==> t.reset_timeout_on_key == Some(true),
        t.extra_mouse_keys is None ==> r.extra_mouse_keys@.len() == 0,
        t.extra_mouse_keys matches Some(keys) ==> r.extra_mouse_keys@ == keys@,
{
}

/// A section resolves exactly where its named profiles fit the table, auto shift goes by a
/// profile that the section names, and auto shift does not list no keys at all.
pub proof fn law_a_section_is_refused_for_three_reasons(t: BehaviorConfig, max: nat)
    ensures
        behavior_error(t, max) is None <==> {
            &&& t.morse is Some && t.morse->0.profiles is Some ==> t.morse->0.profiles->0@.len()
                <= max
            &&& t.auto_shift is Some && t.auto_shift->0.profile is Some ==> t.morse is Some
                && t.morse->0.profiles is Some && exists|i: int|
                0 <= i < t.morse->0.profiles->0@.len() && (#[trigger] t.morse->0.profiles->0@[i]).0@
                    == t.auto_shift->0.profile->0@
            &&& t.auto_shift is Some && t.auto_shift->0.keys is Some
                ==> t.auto_shift->0.keys->0@.len() > 0
        },
{
    if t.morse is Some && t.morse->0.profiles is Some {
        let named = t.morse->0.profiles->0@;
        assert(profiles_of(t.morse->0) == named);
        if t.auto_shift is Some && t.auto_shift->0.profile is Some {
            let name = t.auto_shift->0.profile->0@;
            if has_profile(t.morse, name) {
                let i = choose|i: int|
                    0 <= i < profiles_of(t.morse->0).len() && (#[trigger] profiles_of(
                        t.morse->0,
                    )[i]).0@ == name;
                assert(named[i].0@ == name);
            }
            if exists|i: int| 0 <= i < named.len() && (#[trigger] named[i]).0@ == name {
                let i = choose|i: int| 0 <= i < named.len() && (#[trigger] named[i]).0@ == name;
                assert(profiles_of(t.morse->0)[i].0@ == name);
            }
        }
    }
}

proof fn lemma_other_names(names: Seq<String>, lowered: Seq<String>)
    requires
        names.len() == lowered.len(),
    ensures
        forall|x: String| #[trigger]
            other_names(names, lowered).contains(x) <==> exists|i: int|
                0 <= i < names.len() && #[trigger] names[i] == x && lowered[i]@ != "alpha"@
                    && lowered[i]@ != "numeric"@ && lowered[i]@ != "symbols"@,
        (forall|i: int|
            0 <= i < names.len() ==> (#[trigger] lowered[i])@ != "alpha"@ && lowered[i]@
                != "numeric"@ && lowered[i]@ != "symbols"@) ==> other_names(names, lowered)
            == names,
    decreases names.len(),
{
    if names.len() > 0 {
        let n = names.drop_last();
        let l = lowered.drop_last();
        lemma_other_names(n, l);
        let rest = other_names(n, l);
        let all = other_names(names, lowered);
        let last = names.len() - 1;
        assert forall|x: String| #[trigger] all.contains(x) <==> exists|i: int|
            0 <= i < names.len() && #[trigger] names[i] == x && lowered[i]@ != "alpha"@
                && lowered[i]@ != "numeric"@ && lowered[i]@ != "symbols"@ by {
            if all.contains(x) {
                let k = choose|k: int| 0 <= k < all.len() && all[k] == x;
                if k < rest.len() {
                    assert(rest[k] == x);
                    assert(rest.contains(x));
                    let i = choose|i: int|
                        0 <= i < n.len() && #[trigger] n[i] == x && l[i]@ != "alpha"@ && l[i]@
                            != "numeric"@ && l[i]@ != "symbols"@;
                    assert(names[i] == x);
                } else {
                    assert(names[last] == x);
                }
            }
            if exists|i: int|
                0 <= i < names.len() && #[trigger] names[i] == x && lowered[i]@ != "alpha"@
                    && lowered[i]@ != "numeric"@ && lowered[i]@ != "symbols"@ {
                let i = choose|i: int|
                    0 <= i < names.len() && #[trigger] names[i] == x && lowered[i]@ != "alpha"@
                        && lowered[i]@ != "numeric"@ && lowered[i]@ != "symbols"@;
                if i == last {
                    assert(all[rest.len() as int] == x);
                } else {
                    assert(n[i] == x);
                    assert(rest.contains(x));
                    let k = choose|k: int| 0 <= k < rest.len() && rest[k] == x;
                    assert(all[k] == x);
                }
            }
        }
        if forall|i: int|
            0 <= i < names.len() ==> (#[trigger] lowered[i])@ != "alpha"@ && lowered[i]@
                != "numeric"@ && lowered[i]@ != "symbols"@ {
            assert forall|i: int| 0 <= i < n.len() implies (#[trigger] l[i])@ != "alpha"@ && l[i]@
                != "numeric"@ && l[i]@ != "symbols"@ by {
                assert(l[i] == lowered[i]);
            }
            assert(lowered[last]@ != "alpha"@);
            assert(all =~= names);
        }
    } else {
        assert(other_names(names, lowered) =~= names);
    }
}

/// Auto shift shifts the groups that are named, whatever their case, and the keys that are
/// named outside them, and nothing else; where no keys are listed it shifts all groups and no
/// other key.
pub proof fn law_auto_shift_shifts_what_is_named(t: AutoShiftConfig, r: AutoShift)
    requires
        auto_shift_resolves(Some(t), Some(r)),
    ensures
        r.profile == t.profile,
        t.keys is None ==> r.alpha && r.numeric && r.symbols && r.keys@.len() == 0,
        t.keys matches Some(names) ==> {
            &&& r.alpha <==> exists|i: int|
                0 <= i < names@.len() && unicode_lower((#[trigger] names@[i])@) == "alpha"@
            &&& r.numeric <==> exists|i: int|
                0 <= i < names@.len() && unicode_lower((#[trigger] names@[i])@) == "numeric"@
            &&& r.symbols <==> exists|i: int|
                0 <= i < names@.len() && unicode_lower((#[trigger] names@[i])@) == "symbols"@
            &&& forall|x: String| #[trigger]
                r.keys@.contains(x) <==> names@.contains(x) && unicode_lower(x@) != "alpha"@
                    && unicode_lower(x@) != "numeric"@ && unicode_lower(x@) != "symbols"@
        },
{
    if let Some(v) = t.keys {
        let names = v@;
        let lowered = choose|lowered: Seq<String>| #[trigger]
            are_lowered(names, lowered) && groups_split(names, lowered, r);
        lemma_other_names(names, lowered);
        assert forall|group: Seq<char>| #[trigger] names_group(lowered, group) <==> exists|i: int|
            0 <= i < names.len() && unicode_lower((#[trigger] names[i])@) == group by {
            if names_group(lowered, group) {
                let i = choose|i: int| 0 <= i < lowered.len() && (#[trigger] lowered[i])@ == group;
                assert(unicode_lower(names[i]@) == group);
            }
            if exists|i: int| 0 <= i < names.len() && unicode_lower((#[trigger] names[i])@) == group {
                let i = choose|i: int|
                    0 <= i < names.len() && unicode_lower((#[trigger] names[i])@) == group;
                assert(lowered[i]@ == group);
            }
        }
        assert forall|x: String| #[trigger] r.keys@.contains(x) <==> names.contains(x)
            && unicode_lower(x@) != "alpha"@ && unicode_lower(x@) != "numeric"@ && unicode_lower(x@)
            != "symbols"@ by {
            if r.keys@.contains(x) {
                let i = choose|i: int|
                    0 <= i < names.len() && #[trigger] names[i] == x && lowered[i]@ != "alpha"@
                        && lowered[i]@ != "numeric"@ && lowered[i]@ != "symbols"@;
                assert(lowered[i]@ == unicode_lower(x@));
            }
            if names.contains(x) && unicode_lower(x@) != "alpha"@ && unicode_lower(x@)
                != "numeric"@ && unicode_lower(x@) != "symbols"@ {
                let i = choose|i: int| 0 <= i < names.len() && names[i] == x;
                assert(lowered[i]@ == unicode_lower(x@));
                assert(names[i] == x);
            }
        }
    }
}

} // verus!
