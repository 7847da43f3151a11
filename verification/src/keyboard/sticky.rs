//! Sticky key state machine.
//!
//! A sticky key postpones the release of the action it wraps until the next
//! input, so tapping `SK(LShift)` shifts the key that follows. It never
//! inspects the action: press and release both go through the ordinary
//! dispatch path, and the only thing this module decides is *when* the release
//! happens, and when the host is told about it.
//!
//! The caller dispatches actions and sends reports. It hands in what the keyboard
//! sent before and after a dispatch, and is told which records to release.

use vstd::prelude::*;
use crate::keyboard::oneshot::without;
use crate::sticky::StickyProfiles;
use crate::time::{Duration, Instant};
use crate::types::{Action, HidKeyCode, KeyboardEvent, KeyboardEventPos, ModifierCombination};

verus! {

/// Sticky keys that can be active at once.
pub const STICKY_MAX: usize = 8;

/// The longest timeout a profile can hold, in ticks.
pub const STICKY_TIMEOUT_MAX_TICKS: u64 = 65_535_000;

/// Where a sticky key is in its life cycle. The press is always dispatched right
/// away, so there is no "not yet pressed" state.
#[derive(Clone, Copy, PartialEq, Eq, Debug, Structural)]
pub enum StickyPhase {
    /// The key is still down.
    Held,
    /// The key came up, waiting for the next input.
    Armed,
    /// An input already claimed it; the release waits for the key to come up.
    Used,
}

impl StickyPhase {
    pub open spec fn spec_key_down(self) -> bool {
        self is Held || self is Used
    }

    /// Whether the key that triggered this sticky is still held down.
    pub fn key_down(self) -> (r: bool)
        ensures
            r == self.spec_key_down(),
    {
        match self {
            StickyPhase::Held => true,
            StickyPhase::Armed => false,
            StickyPhase::Used => true,
        }
    }
}

/// One active sticky key.
#[derive(Clone, Copy, PartialEq, Eq, Debug, Structural)]
pub struct Sticky {
    /// Identity, with the profile. Combo outputs arrive under the last pressed
    /// member's position but are released under the first one let go, so the
    /// position can't identify a record; the action can.
    pub action: Action,
    /// The position the press was dispatched under. The postponed release has to
    /// reuse it.
    pub pos: KeyboardEventPos,
    pub profile: u8,
    pub phase: StickyPhase,
    pub press_time: Instant,
    /// Only meaningful once the key is up; the last instant means "no timeout".
    pub deadline: Instant,
    /// The `WM` modifiers this record moved into the held-modifier counts on press,
    /// to be taken back out on release.
    pub owned_mods: ModifierCombination,
    /// Layers this record lit, one bit each.
    pub layers: u32,
}

/// Records in a `heapless::Vec` of [`STICKY_MAX`] entries.
#[verifier::external_body]
pub struct StickyTable {
    inner: heapless::Vec<Sticky, STICKY_MAX>,
}

/// The records of a table.
pub uninterp spec fn sticky_records(table: StickyTable) -> Seq<Sticky>;

impl View for StickyTable {
    type V = Seq<Sticky>;

    open spec fn view(&self) -> Seq<Sticky> {
        sticky_records(*self)
    }
}

/// A sequence without its entry `i`, in whose place the last one stands.
pub open spec fn swap_removed(s: Seq<Sticky>, i: int) -> Seq<Sticky> {
    s.update(i, s.last()).drop_last()
}

/// `heapless::Vec::new`: no records.
#[verifier::external_body]
fn table_new() -> (r: StickyTable)
    ensures
        sticky_records(r) == Seq::<Sticky>::empty(),
{
    StickyTable { inner: heapless::Vec::new() }
}

/// `heapless::Vec::as_slice`: the records, never more than the capacity.
#[verifier::external_body]
fn table_as_slice(table: &StickyTable) -> (r: &[Sticky])
    ensures
        r@ == sticky_records(*table),
        r@.len() <= STICKY_MAX,
{
    table.inner.as_slice()
}

/// `heapless::Vec::push`: one more at the end, or an error and no change where the
/// capacity is used up.
#[verifier::external_body]
fn table_push(table: &mut StickyTable, s: Sticky) -> (r: Result<(), ()>)
    ensures
        match r {
            Ok(()) => sticky_records(*old(table)).len() < STICKY_MAX && sticky_records(
                *final(table),
            ) == sticky_records(*old(table)).push(s),
            Err(()) => sticky_records(*old(table)).len() >= STICKY_MAX && sticky_records(
                *final(table),
            ) == sticky_records(*old(table)),
        },
{
    match table.inner.push(s) {
        Ok(()) => Ok(()),
        Err(_) => Err(()),
    }
}

/// `heapless::Vec::swap_remove`: takes an entry out and puts the last one in its
/// place.
#[verifier::external_body]
fn table_swap_remove(table: &mut StickyTable, index: usize) -> (r: Sticky)
    requires
        index < sticky_records(*old(table)).len(),
    ensures
        r == sticky_records(*old(table))[index as int],
        sticky_records(*final(table)) == swap_removed(sticky_records(*old(table)), index as int),
{
    table.inner.swap_remove(index)
}

/// `heapless::Vec::as_mut_slice`, and a write to one entry.
#[verifier::external_body]
fn table_set(table: &mut StickyTable, index: usize, s: Sticky)
    requires
        index < sticky_records(*old(table)).len(),
    ensures
        sticky_records(*final(table)) == sticky_records(*old(table)).update(index as int, s),
{
    table.inner.as_mut_slice()[index] = s;
}

/// What the keyboard is currently sending to the host. Comparing this across a
/// key's dispatch answers "did this key actually produce input", which is what a
/// sticky key waits for. Modifiers are deliberately absent: they ride along with
/// content rather than being content.
#[derive(Clone, Copy, Debug)]
pub struct OutputSnapshot {
    pub keycodes: [HidKeyCode; 6],
    pub media: u16,
    pub system: u8,
    pub mouse_buttons: u8,
}

/// Whether `k` is a key of `after` that is none of `before`.
pub open spec fn is_added(after: Seq<HidKeyCode>, before: Seq<HidKeyCode>, i: int) -> bool {
    after[i].0 != 0 && !before.contains(after[i])
}

fn holds_key(keys: &[HidKeyCode; 6], key: HidKeyCode) -> (r: bool)
    ensures
        r == keys@.contains(key),
{
    let mut i: usize = 0;
    while i < 6
        invariant
            i <= 6,
            forall|j: int| 0 <= j < i ==> keys@[j] != key,
        decreases 6 - i,
    {
        if keys[i] == key {
            return true;
        }
        i = i + 1;
    }
    false
}

impl OutputSnapshot {
    /// The keycode this key added to the report, if any: the first one that is in
    /// this snapshot and not in `before`.
    pub fn added_keycode(&self, before: &Self) -> (r: Option<HidKeyCode>)
        ensures
            match r {
                Some(k) => exists|i: int|
                    0 <= i < 6 && k == self.keycodes@[i] && #[trigger] is_added(
                        self.keycodes@,
                        before.keycodes@,
                        i,
                    ) && (forall|j: int|
                        0 <= j < i ==> !#[trigger] is_added(
                            self.keycodes@,
                            before.keycodes@,
                            j,
                        )),
                None => forall|j: int|
                    0 <= j < 6 ==> !#[trigger] is_added(self.keycodes@, before.keycodes@, j),
            },
    {
        let mut i: usize = 0;
        while i < 6
            invariant
                i <= 6,
                forall|j: int|
                    0 <= j < i ==> !#[trigger] is_added(self.keycodes@, before.keycodes@, j),
            decreases 6 - i,
        {
            let k = self.keycodes[i];
            if k.0 != 0 && !holds_key(&before.keycodes, k) {
                assert(is_added(self.keycodes@, before.keycodes@, i as int));
                return Some(k);
            }
            i = i + 1;
        }
        None
    }

    /// Whether the two hold the same keys in the same places.
    fn same_keys(&self, other: &Self) -> (r: bool)
        ensures
            r == (self.keycodes@ == other.keycodes@),
    {
        let mut i: usize = 0;
        while i < 6
            invariant
                i <= 6,
                forall|j: int| 0 <= j < i ==> self.keycodes@[j] == other.keycodes@[j],
            decreases 6 - i,
        {
            if self.keycodes[i] != other.keycodes[i] {
                return false;
            }
            i = i + 1;
        }
        assert(self.keycodes@ =~= other.keycodes@);
        true
    }

    pub open spec fn spec_same(&self, other: &Self) -> bool {
        &&& self.keycodes@ == other.keycodes@
        &&& self.media == other.media
        &&& self.system == other.system
        &&& self.mouse_buttons == other.mouse_buttons
    }

    /// Whether the host sees the same content in both.
    pub fn same(&self, other: &Self) -> (r: bool)
        ensures
            r == self.spec_same(other),
    {
        self.same_keys(other) && self.media == other.media && self.system == other.system
            && self.mouse_buttons == other.mouse_buttons
    }

    /// Whether an input went into the keyboard report: the keys held after it are not
    /// those from before. Only then its own report carries what its claims change; a
    /// mouse button or a media key has no such follow-up.
    pub fn wrote_keyboard(&self, before: &Self) -> (r: bool)
        ensures
            r == (self.keycodes@ != before.keycodes@),
    {
        !self.same_keys(before)
    }
}

/// How long a key is down for a hold, where the default morse profile does not say.
pub const DEFAULT_HOLD_MS: u16 = 250;

/// How long a sticky key is down for a hold: as long as a morse key of the default
/// profile.
pub open spec fn hold_threshold(hold_timeout_ms: Option<u16>) -> u16 {
    match hold_timeout_ms {
        Some(ms) => ms,
        None => DEFAULT_HOLD_MS,
    }
}

pub open spec fn deadline_of(timeout_ms: u16, now: Instant) -> Instant {
    if timeout_ms == 0 {
        Instant { ticks: u64::MAX }
    } else {
        Instant { ticks: (now.ticks + timeout_ms * 1000) as u64 }
    }
}

/// When an armed record expires. A profile timeout of `0` means never.
pub fn sticky_deadline(timeout_ms: u16, now: Instant) -> (r: Instant)
    requires
        now.ticks + timeout_ms * 1000 <= u64::MAX,
    ensures
        r == deadline_of(timeout_ms, now),
{
    if timeout_ms == 0 {
        Instant::max()
    } else {
        now.after(Duration::from_millis(timeout_ms as u64))
    }
}

/// The layers that records keep lit.
pub open spec fn lit(records: Seq<Sticky>) -> u32
    decreases records.len(),
{
    if records.len() == 0 {
        0
    } else {
        lit(records.drop_last()) | records.last().layers
    }
}

/// A record that left the table and is to be released: its action's release is to
/// be dispatched under its position, and what it had no business touching put back.
#[derive(Clone, Copy, PartialEq, Eq, Debug, Structural)]
pub struct Released {
    pub sticky: Sticky,
    /// The layers that the records left behind still keep lit.
    pub still_lit: u32,
    /// Whether its profile asks for a report of its own.
    pub quick: bool,
}

pub open spec fn layer_bit(mask: u32, i: u32) -> bool {
    (mask >> i) & 1u32 == 1u32
}

impl Released {
    /// The event to dispatch the release with.
    pub fn release_event(&self) -> (r: KeyboardEvent)
        ensures
            r == (KeyboardEvent { pos: self.sticky.pos, pressed: false }),
    {
        KeyboardEvent { pos: self.sticky.pos, pressed: false }
    }

    /// The layers that were lit before the dispatch, went out in it, and are not
    /// this record's alone.
    pub open spec fn to_restore(&self, layers_before: u32, layers_now: u32) -> u32 {
        layers_before & !layers_now & !(self.sticky.layers & !self.still_lit)
    }

    /// The layers to light again after the release was dispatched, lowest first.
    /// Only the ones this record alone lit actually go out.
    pub fn layers_to_restore(&self, layers_before: u32, layers_now: u32) -> (r: Vec<u8>)
        ensures
            forall|b: u8|
                r@.contains(b) <==> b < 32 && layer_bit(
                    self.to_restore(layers_before, layers_now),
                    b as u32,
                ),
            forall|i: int, j: int| 0 <= i < j < r@.len() ==> r@[i] < r@[j],
    {
        let restore: u32 = layers_before & !layers_now & !(self.sticky.layers & !self.still_lit);
        let mut out: Vec<u8> = Vec::new();
        let mut b: u8 = 0;
        while b < 32
            invariant
                b <= 32,
                forall|x: u8| out@.contains(x) <==> x < b && layer_bit(restore, x as u32),
                forall|i: int, j: int| 0 <= i < j < out@.len() ==> out@[i] < out@[j],
                forall|i: int| 0 <= i < out@.len() ==> out@[i] < b,
            decreases 32 - b,
        {
            if (restore >> (b as u32)) & 1u32 == 1u32 {
                let ghost before = out@;
                out.push(b);
                assert forall|x: u8| out@.contains(x) <==> x < b + 1 && layer_bit(
                    restore,
                    x as u32,
                ) by {
                    if before.contains(x) {
                        let i = before.index_of(x);
                        assert(out@[i] == x);
                    }
                    if x == b {
                        assert(out@[before.len() as int] == x);
                    }
                    if out@.contains(x) {
                        let i = out@.index_of(x);
                        if i < before.len() {
                            assert(before[i] == x);
                        }
                    }
                }
            } else {
                assert forall|x: u8| out@.contains(x) <==> x < b + 1 && layer_bit(
                    restore,
                    x as u32,
                ) by {}
            }
            b = b + 1;
        }
        out
    }
}

/// What a sticky key's own event asks for.
#[derive(Clone, Copy, Debug)]
pub enum StickyStep {
    /// Nothing.
    Ignored,
    /// Release the record, and report where the host can see a change.
    Release(Released),
    /// Dispatch the press, and report it now if `report` is set.
    Dispatch { report: bool },
    /// The record waits for the next input.
    Armed,
}

/// Whether a record is that of a sticky key.
pub open spec fn is_key(s: Sticky, action: Action, profile: u8) -> bool {
    s.action == action && s.profile == profile
}

/// Whether a record of a sticky key is in the table.
pub open spec fn has_key(records: Seq<Sticky>, action: Action, profile: u8) -> bool {
    exists|i: int| 0 <= i < records.len() && #[trigger] is_key(records[i], action, profile)
}

/// What becomes of a record when an input claims it: what it turns into, or `None`
/// where it is released.
pub open spec fn claim_one(
    s: Sticky,
    keycode: Option<HidKeyCode>,
    origin: Action,
    profiles: StickyProfiles,
    now: Instant,
) -> Option<Sticky> {
    let rule = profiles.rule(s.profile);
    let ignored = keycode matches Some(k) && rule.ignore.contains(k);
    if ignored {
        if s.phase.spec_key_down() {
            Some(s)
        } else {
            Some(Sticky { deadline: deadline_of(rule.timeout_ms, now), ..s })
        }
    } else if s.action == origin {
        Some(s)
    } else if s.phase.spec_key_down() {
        Some(Sticky { phase: StickyPhase::Used, ..s })
    } else {
        None
    }
}

/// The records left, and those released in turn, when an input claims the records
/// from `i` on.
pub open spec fn claim_run(
    records: Seq<Sticky>,
    i: int,
    keycode: Option<HidKeyCode>,
    origin: Action,
    profiles: StickyProfiles,
    now: Instant,
) -> (Seq<Sticky>, Seq<Released>)
    decreases records.len() - i,
{
    if i < 0 || i >= records.len() {
        (records, Seq::empty())
    } else {
        match claim_one(records[i], keycode, origin, profiles, now) {
            Some(s) => claim_run(records.update(i, s), i + 1, keycode, origin, profiles, now),
            None => {
                let left = swap_removed(records, i);
                let (rest, out) = claim_run(left, i, keycode, origin, profiles, now);
                (rest, seq![released(records, i, profiles)] + out)
            },
        }
    }
}

/// Record `i`, taken out of the table.
pub open spec fn released(records: Seq<Sticky>, i: int, profiles: StickyProfiles) -> Released {
    Released {
        sticky: records[i],
        still_lit: lit(swap_removed(records, i)),
        quick: profiles.rule(records[i].profile).release_on_next_press,
    }
}

/// The records left, and those released in turn, when every record below `n` that
/// is to go is taken out, the last first.
pub open spec fn sweep(
    records: Seq<Sticky>,
    n: int,
    go: spec_fn(Sticky) -> bool,
    profiles: StickyProfiles,
) -> (Seq<Sticky>, Seq<Released>)
    decreases n,
{
    if n <= 0 || n > records.len() {
        (records, Seq::empty())
    } else if go(records[n - 1]) {
        let (rest, out) = sweep(swap_removed(records, n - 1), n - 1, go, profiles);
        (rest, seq![released(records, n - 1, profiles)] + out)
    } else {
        sweep(records, n - 1, go, profiles)
    }
}

/// Records whose timeout has passed.
pub open spec fn expired(now: Instant) -> spec_fn(Sticky) -> bool {
    |s: Sticky| s.deadline.ticks <= now.ticks
}

/// Records that a layer transition ends. Only records whose key is already up are
/// affected: otherwise `SK(MO(1))` would be killed by the very layer it just
/// turned on.
pub open spec fn ended_by_layers(
    profiles: StickyProfiles,
    entered: bool,
    exited: bool,
) -> spec_fn(Sticky) -> bool {
    |s: Sticky|
        {
            let rule = profiles.rule(s.profile);
            ((entered && rule.release_on_layer_enter) || (exited && rule.release_on_layer_exit))
                && !s.phase.spec_key_down()
        }
}

impl StickyTable {
    pub fn new() -> (r: Self)
        ensures
            r@ == Seq::<Sticky>::empty(),
    {
        table_new()
    }

    /// The records.
    pub fn records(&self) -> (r: &[Sticky])
        ensures
            r@ == self@,
            r@.len() <= STICKY_MAX,
    {
        table_as_slice(self)
    }

    fn find(&self, action: Action, profile: u8) -> (r: Option<usize>)
        ensures
            match r {
                Some(i) => i < self@.len() && is_key(self@[i as int], action, profile) && forall|
                    j: int,
                |
                    0 <= j < i ==> !#[trigger] is_key(self@[j], action, profile),
                None => !has_key(self@, action, profile),
            },
    {
        let records = table_as_slice(self);
        let mut i: usize = 0;
        while i < records.len()
            invariant
                records@ == self@,
                i <= records@.len(),
                forall|j: int| 0 <= j < i ==> !#[trigger] is_key(self@[j], action, profile),
            decreases records@.len() - i,
        {
            if records[i].action == action && records[i].profile == profile {
                return Some(i);
            }
            i = i + 1;
        }
        None
    }

    /// The layers that the records keep lit.
    fn lit_layers(&self) -> (r: u32)
        ensures
            r == lit(self@),
    {
        let records = table_as_slice(self);
        let mut mask: u32 = 0;
        let mut i: usize = 0;
        while i < records.len()
            invariant
                records@ == self@,
                i <= records@.len(),
                mask == lit(self@.take(i as int)),
            decreases records@.len() - i,
        {
            assert(self@.take(i + 1).drop_last() =~= self@.take(i as int));
            mask = mask | records[i].layers;
            i = i + 1;
        }
        assert(self@.take(i as int) =~= self@);
        mask
    }

    /// Take one record out of the table, to be released.
    fn release_sticky(&mut self, idx: usize, profiles: &StickyProfiles) -> (r: Released)
        requires
            idx < old(self)@.len(),
        ensures
            final(self)@ == swap_removed(old(self)@, idx as int),
            r == released(old(self)@, idx as int, *profiles),
    {
        let sticky = table_swap_remove(self, idx);
        let (_, flags) = profiles.sticky_profile(sticky.profile);
        Released { sticky, still_lit: self.lit_layers(), quick: flags.release_on_next_press() }
    }

    /// Press or release of a sticky key itself. Pressing the same sticky again
    /// cancels it; a press that finds the table full is dropped outright.
    /// `hold_timeout_ms` is that of the default morse profile.
    pub fn process_key_action_sticky(
        &mut self,
        action: Action,
        profile_idx: u8,
        pressed: bool,
        event_time: Instant,
        hold_timeout_ms: Option<u16>,
        profiles: &StickyProfiles,
        now: Instant,
    ) -> (r: StickyStep)
        requires
            !pressed && has_key(old(self)@, action, profile_idx) ==> now.ticks
                + STICKY_TIMEOUT_MAX_TICKS <= u64::MAX,
        ensures
            ({
                let before = old(self)@;
                let after = final(self)@;
                if !has_key(before, action, profile_idx) {
                    &&& after == before
                    &&& r == if pressed && before.len() < STICKY_MAX {
                        StickyStep::Dispatch {
                            report: profiles.rule(profile_idx).activate_on_press,
                        }
                    } else {
                        StickyStep::Ignored
                    }
                } else {
                    exists|i: int|
                        {
                            &&& 0 <= i < before.len()
                            &&& #[trigger] is_key(before[i], action, profile_idx)
                            &&& forall|j: int|
                                0 <= j < i ==> !#[trigger] is_key(before[j], action, profile_idx)
                            &&& if pressed || before[i].phase is Used || held_long(
                                before[i],
                                event_time,
                                hold_threshold(hold_timeout_ms),
                            ) {
                                &&& after == swap_removed(before, i)
                                &&& r == StickyStep::Release(released(before, i, *profiles))
                            } else {
                                &&& after == before.update(
                                    i,
                                    (Sticky {
                                        phase: StickyPhase::Armed,
                                        deadline: deadline_of(
                                            profiles.rule(profile_idx).timeout_ms,
                                            now,
                                        ),
                                        ..before[i]
                                    }),
                                )
                                &&& r == StickyStep::Armed
                            }
                        }
                }
            }),
    {
        let existing = self.find(action, profile_idx);
        match existing {
            None => {
                if pressed && table_as_slice(self).len() < STICKY_MAX {
                    let (_, flags) = profiles.sticky_profile(profile_idx);
                    StickyStep::Dispatch { report: flags.activate_on_press() }
                } else {
                    StickyStep::Ignored
                }
            },
            Some(i) => {
                let ghost before = self@;
                assert(is_key(before[i as int], action, profile_idx));
                let s = table_as_slice(self)[i];
                let held_for = event_time.saturating_duration_since(s.press_time);
                let hold_threshold_ms: u16 = match hold_timeout_ms {
                    Some(ms) => ms,
                    None => DEFAULT_HOLD_MS,
                };
                if pressed || s.phase == StickyPhase::Used || held_for.ticks
                    >= hold_threshold_ms as u64 * 1000 {
                    StickyStep::Release(self.release_sticky(i, profiles))
                } else {
                    let (p, _) = profiles.sticky_profile(s.profile);
                    let deadline = sticky_deadline(p.timeout_ms, now);
                    table_set(self, i, Sticky { phase: StickyPhase::Armed, deadline, ..s });
                    StickyStep::Armed
                }
            },
        }
    }

    /// A sticky key's press was dispatched. `with_*` are the `WM` modifiers and
    /// `layers_*` the layer bits around the dispatch. The result are the modifiers
    /// to move into the held counts, where they last as long as the record does;
    /// the `WM` modifiers go back to what they were.
    pub fn dispatched(
        &mut self,
        action: Action,
        pos: KeyboardEventPos,
        profile: u8,
        event_time: Instant,
        with_before: ModifierCombination,
        with_after: ModifierCombination,
        layers_before: u32,
        layers_after: u32,
    ) -> (r: ModifierCombination)
        ensures
            r == without(with_after, with_before),
            final(self)@ == if old(self)@.len() < STICKY_MAX {
                old(self)@.push(
                    Sticky {
                        action,
                        pos,
                        profile,
                        phase: StickyPhase::Held,
                        press_time: event_time,
                        deadline: Instant { ticks: u64::MAX },
                        owned_mods: without(with_after, with_before),
                        layers: layers_after & !layers_before,
                    },
                )
            } else {
                old(self)@
            },
    {
        let owned_mods = ModifierCombination(with_after.0 & !with_before.0);
        let _ = table_push(
            self,
            Sticky {
                action,
                pos,
                profile,
                phase: StickyPhase::Held,
                press_time: event_time,
                deadline: Instant::max(),
                owned_mods,
                layers: layers_after & !layers_before,
            },
        );
        owned_mods
    }

    /// Called after a key action has been dispatched: the records it claims, or
    /// `None` where it produced no input. `origin` is the action dispatched, so a
    /// sticky key that produces input doesn't claim itself.
    pub fn claim_sticky(
        &mut self,
        before: &OutputSnapshot,
        after: &OutputSnapshot,
        origin: Action,
        profiles: &StickyProfiles,
        now: Instant,
    ) -> (r: Option<Vec<Released>>)
        requires
            now.ticks + STICKY_TIMEOUT_MAX_TICKS <= u64::MAX,
        ensures
            r is None <==> old(self)@.len() == 0 || after.spec_same(before),
            match r {
                None => final(self)@ == old(self)@,
                Some(out) => exists|keycode: Option<HidKeyCode>|
                    {
                        &&& #[trigger] OutputSnapshot::added_keycode.ensures(
                            (after, before),
                            keycode,
                        )
                        &&& (final(self)@, out@) == claim_run(
                            old(self)@,
                            0,
                            keycode,
                            origin,
                            *profiles,
                            now,
                        )
                    },
            },
    {
        if table_as_slice(self).len() == 0 || after.same(before) {
            return None;
        }
        let keycode = after.added_keycode(before);
        Some(self.claim_sticky_inner(keycode, origin, profiles, now))
    }

    /// Claim on behalf of something whose output doesn't survive a snapshot: a
    /// macro presses and releases inside one execution.
    pub fn claim_sticky_unconditionally(&mut self, profiles: &StickyProfiles, now: Instant) -> (r:
        Vec<Released>)
        requires
            now.ticks + STICKY_TIMEOUT_MAX_TICKS <= u64::MAX,
        ensures
            (final(self)@, r@) == claim_run(old(self)@, 0, None, Action::No, *profiles, now),
    {
        self.claim_sticky_inner(None, Action::No, profiles, now)
    }

    fn claim_sticky_inner(
        &mut self,
        keycode: Option<HidKeyCode>,
        origin: Action,
        profiles: &StickyProfiles,
        now: Instant,
    ) -> (r: Vec<Released>)
        requires
            now.ticks + STICKY_TIMEOUT_MAX_TICKS <= u64::MAX,
        ensures
            (final(self)@, r@) == claim_run(old(self)@, 0, keycode, origin, *profiles, now),
    {
        let mut out: Vec<Released> = Vec::new();
        let mut i: usize = 0;
        let ghost whole = claim_run(self@, 0, keycode, origin, *profiles, now);
        assert(Seq::<Released>::empty() + whole.1 =~= whole.1);
        while i < table_as_slice(self).len()
            invariant
                i <= self@.len(),
                now.ticks + STICKY_TIMEOUT_MAX_TICKS <= u64::MAX,
                whole.0 == claim_run(self@, i as int, keycode, origin, *profiles, now).0,
                whole.1 == out@ + claim_run(self@, i as int, keycode, origin, *profiles, now).1,
            decreases self@.len() - i,
        {
            let s = table_as_slice(self)[i];
            let (profile, _) = profiles.sticky_profile(s.profile);
            let ignored = match keycode {
                Some(k) => profile.ignore.contains(k),
                None => false,
            };
            let ghost rec = self@;
            if ignored {
                // The ignore list refills the timeout instead of claiming, which is
                // what lets Alt+Tab cycle.
                if !s.phase.key_down() {
                    table_set(
                        self,
                        i,
                        Sticky { deadline: sticky_deadline(profile.timeout_ms, now), ..s },
                    );
                } else {
                    assert(rec.update(i as int, s) =~= rec);
                }
                i = i + 1;
            } else if s.action == origin {
                assert(rec.update(i as int, s) =~= rec);
                i = i + 1;
            } else if s.phase.key_down() {
                table_set(self, i, Sticky { phase: StickyPhase::Used, ..s });
                i = i + 1;
            } else {
                let ghost out_before = out@;
                let gone = self.release_sticky(i, profiles);
                out.push(gone);
                let ghost tail = claim_run(self@, i as int, keycode, origin, *profiles, now).1;
                assert(out_before + (seq![gone] + tail) =~= out@ + tail);
            }
        }
        assert(out@ + Seq::<Released>::empty() =~= out@);
        out
    }

    /// The earliest sticky expiry.
    pub fn sticky_next_deadline(&self) -> (r: Option<Instant>)
        ensures
            match r {
                Some(d) => {
                    &&& d.ticks != u64::MAX
                    &&& exists|i: int| 0 <= i < self@.len() && #[trigger] self@[i].deadline == d
                    &&& forall|i: int|
                        0 <= i < self@.len() ==> d.ticks <= #[trigger] self@[i].deadline.ticks
                },
                None => forall|i: int|
                    0 <= i < self@.len() ==> #[trigger] self@[i].deadline.ticks == u64::MAX,
            },
    {
        let records = table_as_slice(self);
        let mut best: Option<Instant> = None;
        let mut i: usize = 0;
        while i < records.len()
            invariant
                records@ == self@,
                i <= records@.len(),
                match best {
                    Some(d) => {
                        &&& d.ticks != u64::MAX
                        &&& exists|j: int| 0 <= j < i && #[trigger] self@[j].deadline == d
                        &&& forall|j: int|
                            0 <= j < i ==> d.ticks <= #[trigger] self@[j].deadline.ticks
                    },
                    None => forall|j: int|
                        0 <= j < i ==> #[trigger] self@[j].deadline.ticks == u64::MAX,
                },
            decreases records@.len() - i,
        {
            let d = records[i].deadline;
            if d.ticks != u64::MAX {
                let earlier = match best {
                    Some(b) => d.ticks < b.ticks,
                    None => true,
                };
                if earlier {
                    best = Some(d);
                    assert(self@[i as int].deadline == d);
                }
            }
            i = i + 1;
        }
        best
    }

    /// Take out every record whose timeout has passed, the last one first. If there
    /// is any, one report covers them all.
    pub fn fire_sticky_timeout(&mut self, profiles: &StickyProfiles, now: Instant) -> (r: Vec<
        Released,
    >)
        ensures
            (final(self)@, r@) == sweep(
                old(self)@,
                old(self)@.len() as int,
                expired(now),
                *profiles,
            ),
    {
        let mut out: Vec<Released> = Vec::new();
        let ghost go = expired(now);
        let ghost whole = sweep(self@, self@.len() as int, go, *profiles);
        assert(Seq::<Released>::empty() + whole.1 =~= whole.1);
        let mut n: usize = table_as_slice(self).len();
        while n > 0
            invariant
                n <= self@.len(),
                go == expired(now),
                whole.0 == sweep(self@, n as int, go, *profiles).0,
                whole.1 == out@ + sweep(self@, n as int, go, *profiles).1,
            decreases n,
        {
            let s = table_as_slice(self)[n - 1];
            assert(go(s) == (s.deadline.ticks <= now.ticks));
            if s.deadline.ticks <= now.ticks {
                let ghost out_before = out@;
                let gone = self.release_sticky(n - 1, profiles);
                out.push(gone);
                let ghost tail = sweep(self@, n - 1, go, *profiles).1;
                assert(out_before + (seq![gone] + tail) =~= out@ + tail);
            }
            n = n - 1;
        }
        assert(out@ + Seq::<Released>::empty() =~= out@);
        out
    }

    /// Take out the records configured to end on a layer transition, the last one
    /// first. If there is any, one report covers them all.
    pub fn sticky_on_layer_change(
        &mut self,
        entered: bool,
        exited: bool,
        profiles: &StickyProfiles,
    ) -> (r: Vec<Released>)
        ensures
            (final(self)@, r@) == sweep(
                old(self)@,
                old(self)@.len() as int,
                ended_by_layers(*profiles, entered, exited),
                *profiles,
            ),
    {
        let mut out: Vec<Released> = Vec::new();
        let ghost go = ended_by_layers(*profiles, entered, exited);
        let ghost whole = sweep(self@, self@.len() as int, go, *profiles);
        assert(Seq::<Released>::empty() + whole.1 =~= whole.1);
        let mut n: usize = table_as_slice(self).len();
        while n > 0
            invariant
                n <= self@.len(),
                go == ended_by_layers(*profiles, entered, exited),
                whole.0 == sweep(self@, n as int, go, *profiles).0,
                whole.1 == out@ + sweep(self@, n as int, go, *profiles).1,
            decreases n,
        {
            let s = table_as_slice(self)[n - 1];
            let (_, flags) = profiles.sticky_profile(s.profile);
            let wanted = (entered && flags.release_on_layer_enter()) || (exited
                && flags.release_on_layer_exit());
            assert(go(s) == (wanted && !s.phase.spec_key_down()));
            if wanted && !s.phase.key_down() {
                let ghost out_before = out@;
                let gone = self.release_sticky(n - 1, profiles);
                out.push(gone);
                let ghost tail = sweep(self@, n - 1, go, *profiles).1;
                assert(out_before + (seq![gone] + tail) =~= out@ + tail);
            }
            n = n - 1;
        }
        assert(out@ + Seq::<Released>::empty() =~= out@);
        out
    }
}

/// Whether a record's key was down for as long as a hold takes.
pub open spec fn held_long(s: Sticky, event_time: Instant, hold_threshold_ms: u16) -> bool {
    let held_for = if event_time.ticks >= s.press_time.ticks {
        event_time.ticks - s.press_time.ticks
    } else {
        0
    };
    held_for >= hold_threshold_ms * 1000
}

/// Whether a batch of released records needs a catch-up report. `changed` says of
/// each whether its release changed the held modifiers, `visible_changed` whether
/// the batch did, and `wrote_keyboard` whether the input's own report carries the
/// change: see [`OutputSnapshot::wrote_keyboard`]; a macro's always does. One report
/// covers the whole batch: sending one per record would let the host watch the
/// modifiers disappear one at a time.
pub fn catch_up_report(
    batch: &Vec<Released>,
    changed: &Vec<bool>,
    visible_changed: bool,
    wrote_keyboard: bool,
) -> (r: bool)
    requires
        batch@.len() == changed@.len(),
    ensures
        r == ((exists|i: int| 0 <= i < batch@.len() && #[trigger] batch@[i].quick && changed@[i])
            || (visible_changed && !wrote_keyboard)),
{
    let mut report_now: bool = false;
    let mut i: usize = 0;
    while i < batch.len()
        invariant
            batch@.len() == changed@.len(),
            i <= batch@.len(),
            report_now == exists|j: int|
                0 <= j < i && #[trigger] batch@[j].quick && changed@[j],
        decreases batch@.len() - i,
    {
        let one = batch[i].quick && changed[i];
        assert(one == (batch@[i as int].quick && changed@[i as int]));
        report_now = report_now || one;
        i = i + 1;
    }
    report_now || (visible_changed && !wrote_keyboard)
}

// ---------------------------------------------------------------------------
// Laws
// ---------------------------------------------------------------------------

/// No two records are of the same sticky key.
pub open spec fn distinct(records: Seq<Sticky>) -> bool {
    forall|i: int, j: int|
        0 <= i < j < records.len() ==> !(#[trigger] records[i].action == #[trigger] records[j].action
            && records[i].profile == records[j].profile)
}

/// A press that finds no record of its sticky key leaves one record per sticky key.
pub proof fn law_a_press_keeps_records_distinct(records: Seq<Sticky>, s: Sticky)
    requires
        distinct(records),
        !has_key(records, s.action, s.profile),
    ensures
        distinct(records.push(s)),
{
    let pushed = records.push(s);
    assert forall|i: int, j: int| 0 <= i < j < pushed.len() implies !(
    #[trigger] pushed[i].action == #[trigger] pushed[j].action && pushed[i].profile
        == pushed[j].profile) by {
        assert(!is_key(records[i], s.action, s.profile));
        if j < records.len() {
            assert(pushed[j] == records[j]);
        }
    }
}

proof fn lemma_swap_removed(records: Seq<Sticky>, i: int)
    requires
        0 <= i < records.len(),
    ensures
        swap_removed(records, i).len() == records.len() - 1,
        forall|j: int|
            0 <= j < records.len() - 1 ==> #[trigger] swap_removed(records, i)[j] == if j == i {
                records[records.len() - 1]
            } else {
                records[j]
            },
        distinct(records) ==> distinct(swap_removed(records, i)),
{
    let left = swap_removed(records, i);
    if distinct(records) {
        let n = records.len() - 1;
        assert forall|a: int, b: int| 0 <= a < b < left.len() implies !(
        #[trigger] left[a].action == #[trigger] left[b].action && left[a].profile
            == left[b].profile) by {
            if a == i {
                assert(records[b].action != records[n].action || records[b].profile
                    != records[n].profile);
            } else if b == i {
                assert(records[a].action != records[n].action || records[a].profile
                    != records[n].profile);
            } else {
                assert(records[a].action != records[b].action || records[a].profile
                    != records[b].profile);
            }
        }
    }
}

/// Whether a claim leaves a record in the table.
pub open spec fn outlives_claim(
    s: Sticky,
    keycode: Option<HidKeyCode>,
    origin: Action,
    profiles: StickyProfiles,
) -> bool {
    ||| (keycode matches Some(k) && profiles.rule(s.profile).ignore.contains(k))
    ||| s.action == origin
    ||| s.phase is Used
}

proof fn lemma_claim_run(
    records: Seq<Sticky>,
    i: int,
    keycode: Option<HidKeyCode>,
    origin: Action,
    profiles: StickyProfiles,
    now: Instant,
)
    requires
        0 <= i <= records.len(),
    ensures
        ({
            let (rest, out) = claim_run(records, i, keycode, origin, profiles, now);
            &&& i <= rest.len()
            &&& rest.len() + out.len() == records.len()
            &&& forall|j: int| 0 <= j < i ==> #[trigger] rest[j] == records[j]
            &&& forall|j: int|
                i <= j < rest.len() ==> outlives_claim(
                    #[trigger] rest[j],
                    keycode,
                    origin,
                    profiles,
                )
            &&& forall|m: int|
                0 <= m < out.len() ==> claim_one(
                    (#[trigger] out[m]).sticky,
                    keycode,
                    origin,
                    profiles,
                    now,
                ) is None && records.contains(out[m].sticky)
            &&& distinct(records) ==> distinct(rest)
        }),
    decreases records.len() - i,
{
    if i < records.len() {
        match claim_one(records[i], keycode, origin, profiles, now) {
            Some(s) => {
                let next = records.update(i, s);
                if distinct(records) {
                    assert forall|a: int, b: int| 0 <= a < b < next.len() implies !(
                    #[trigger] next[a].action == #[trigger] next[b].action && next[a].profile
                        == next[b].profile) by {
                        assert(records[a].action != records[b].action || records[a].profile
                            != records[b].profile);
                    }
                }
                lemma_claim_run(next, i + 1, keycode, origin, profiles, now);
                let (rest, out) = claim_run(next, i + 1, keycode, origin, profiles, now);
                assert(rest[i] == s);
                assert forall|m: int| 0 <= m < out.len() implies records.contains(
                    (#[trigger] out[m]).sticky,
                ) by {
                    let gone = out[m].sticky;
                    assert(next.contains(gone));
                    let a = next.index_of(gone);
                    assert(gone != s) by {
                        assert(claim_one(gone, keycode, origin, profiles, now) is None);
                        assert(outlives_claim(s, keycode, origin, profiles));
                    }
                    assert(records[a] == gone);
                }
            },
            None => {
                lemma_swap_removed(records, i);
                let left = swap_removed(records, i);
                lemma_claim_run(left, i, keycode, origin, profiles, now);
                let (rest, tail) = claim_run(left, i, keycode, origin, profiles, now);
                let (_, out) = claim_run(records, i, keycode, origin, profiles, now);
                assert forall|m: int| 0 <= m < out.len() implies claim_one(
                    (#[trigger] out[m]).sticky,
                    keycode,
                    origin,
                    profiles,
                    now,
                ) is None && records.contains(out[m].sticky) by {
                    if m == 0 {
                        assert(out[0].sticky == records[i]);
                    } else {
                        assert(out[m] == tail[m - 1]);
                        let gone = tail[m - 1].sticky;
                        assert(left.contains(gone));
                        let a = left.index_of(gone);
                        assert(left[a] == gone);
                        assert(records[if a == i {
                            records.len() - 1
                        } else {
                            a
                        }] == gone);
                    }
                }
            },
        }
    }
}

/// An input claims every sticky key that waits for it: what stays in the table is
/// in use by a key still down, ignores the input's keycode, or is the input's own
/// record. Whatever leaves was in the table and waiting, nothing is lost, and no
/// sticky key gets a second record.
pub proof fn law_an_input_claims_what_waits_for_it(
    records: Seq<Sticky>,
    keycode: Option<HidKeyCode>,
    origin: Action,
    profiles: StickyProfiles,
    now: Instant,
)
    ensures
        ({
            let (rest, out) = claim_run(records, 0, keycode, origin, profiles, now);
            &&& rest.len() + out.len() == records.len()
            &&& forall|j: int|
                0 <= j < rest.len() ==> outlives_claim(
                    #[trigger] rest[j],
                    keycode,
                    origin,
                    profiles,
                )
            &&& forall|m: int|
                0 <= m < out.len() ==> {
                    let s = (#[trigger] out[m]).sticky;
                    &&& records.contains(s)
                    &&& s.phase is Armed
                    &&& s.action != origin
                    &&& !(keycode matches Some(k) && profiles.rule(s.profile).ignore.contains(k))
                }
            &&& distinct(records) ==> distinct(rest)
        }),
{
    lemma_claim_run(records, 0, keycode, origin, profiles, now);
    let (rest, out) = claim_run(records, 0, keycode, origin, profiles, now);
    assert forall|m: int| 0 <= m < out.len() implies {
        let s = (#[trigger] out[m]).sticky;
        &&& records.contains(s)
        &&& s.phase is Armed
        &&& s.action != origin
        &&& !(keycode matches Some(k) && profiles.rule(s.profile).ignore.contains(k))
    } by {
        assert(claim_one(out[m].sticky, keycode, origin, profiles, now) is None);
    }
}

proof fn lemma_sweep(
    records: Seq<Sticky>,
    n: int,
    go: spec_fn(Sticky) -> bool,
    profiles: StickyProfiles,
)
    requires
        0 <= n <= records.len(),
        forall|j: int| n <= j < records.len() ==> !go(#[trigger] records[j]),
    ensures
        ({
            let (rest, out) = sweep(records, n, go, profiles);
            &&& rest.len() + out.len() == records.len()
            &&& forall|j: int| 0 <= j < rest.len() ==> !go(#[trigger] rest[j])
            &&& forall|j: int| 0 <= j < rest.len() ==> records.contains(#[trigger] rest[j])
            &&& forall|m: int|
                0 <= m < out.len() ==> go((#[trigger] out[m]).sticky) && records.contains(
                    out[m].sticky,
                )
            &&& distinct(records) ==> distinct(rest)
        }),
    decreases n,
{
    if n > 0 {
        let i = n - 1;
        if go(records[i]) {
            lemma_swap_removed(records, i);
            let left = swap_removed(records, i);
            lemma_sweep(left, i, go, profiles);
            let (rest, tail) = sweep(left, i, go, profiles);
            let (_, out) = sweep(records, n, go, profiles);
            assert forall|s: Sticky| left.contains(s) implies records.contains(s) by {
                let a = left.index_of(s);
                assert(left[a] == s);
                assert(records[if a == i {
                    records.len() - 1
                } else {
                    a
                }] == s);
            }
            assert forall|m: int| 0 <= m < out.len() implies go((#[trigger] out[m]).sticky)
                && records.contains(out[m].sticky) by {
                if m == 0 {
                    assert(out[0].sticky == records[i]);
                } else {
                    assert(out[m] == tail[m - 1]);
                }
            }
        } else {
            lemma_sweep(records, i, go, profiles);
        }
    }
}

/// After the timeouts have fired, no record is left whose time has passed; whatever
/// left had passed it, nothing is lost, and no sticky key gets a second record.
pub proof fn law_timeouts_release_exactly_what_expired(
    records: Seq<Sticky>,
    profiles: StickyProfiles,
    now: Instant,
)
    ensures
        ({
            let (rest, out) = sweep(records, records.len() as int, expired(now), profiles);
            &&& rest.len() + out.len() == records.len()
            &&& forall|j: int|
                0 <= j < rest.len() ==> (#[trigger] rest[j]).deadline.ticks > now.ticks
                    && records.contains(rest[j])
            &&& forall|m: int|
                0 <= m < out.len() ==> (#[trigger] out[m]).sticky.deadline.ticks <= now.ticks
                    && records.contains(out[m].sticky)
            &&& distinct(records) ==> distinct(rest)
        }),
{
    lemma_sweep(records, records.len() as int, expired(now), profiles);
    let (rest, out) = sweep(records, records.len() as int, expired(now), profiles);
    assert forall|j: int| 0 <= j < rest.len() implies (#[trigger] rest[j]).deadline.ticks
        > now.ticks && records.contains(rest[j]) by {
        assert(!expired(now)(rest[j]));
    }
    assert forall|m: int| 0 <= m < out.len() implies (#[trigger] out[m]).sticky.deadline.ticks
        <= now.ticks && records.contains(out[m].sticky) by {
        assert(expired(now)(out[m].sticky));
    }
}

/// A layer transition ends no sticky key that is still held down.
pub proof fn law_layers_end_no_held_key(
    records: Seq<Sticky>,
    profiles: StickyProfiles,
    entered: bool,
    exited: bool,
)
    ensures
        ({
            let (rest, out) = sweep(
                records,
                records.len() as int,
                ended_by_layers(profiles, entered, exited),
                profiles,
            );
            &&& rest.len() + out.len() == records.len()
            &&& forall|m: int|
                0 <= m < out.len() ==> !(#[trigger] out[m]).sticky.phase.spec_key_down()
            &&& distinct(records) ==> distinct(rest)
        }),
{
    let go = ended_by_layers(profiles, entered, exited);
    lemma_sweep(records, records.len() as int, go, profiles);
    let (rest, out) = sweep(records, records.len() as int, go, profiles);
    assert forall|m: int| 0 <= m < out.len() implies !(#[trigger] out[m]).sticky.phase.spec_key_down()
        by {
        assert(go(out[m].sticky));
    }
}

/// Releasing a record puts out no layer but those it alone lit: every layer that
/// was lit before is lit once the layers to restore are lit again, unless the record
/// lit it and no other record keeps it.
pub proof fn law_a_release_puts_out_its_own_layers_only(
    r: Released,
    layers_before: u32,
    layers_now: u32,
    layer: u32,
)
    requires
        layer < 32,
        layer_bit(layers_before, layer),
        !layer_bit(layers_now | r.to_restore(layers_before, layers_now), layer),
    ensures
        layer_bit(r.sticky.layers, layer),
        !layer_bit(r.still_lit, layer),
{
    let own = r.sticky.layers;
    let kept = r.still_lit;
    let restore = r.to_restore(layers_before, layers_now);
    assert((own >> layer) & 1u32 == 1u32 && (kept >> layer) & 1u32 != 1u32) by (bit_vector)
        requires
            layer < 32,
            restore == layers_before & !layers_now & !(own & !kept),
            (layers_before >> layer) & 1u32 == 1u32,
            ((layers_now | restore) >> layer) & 1u32 != 1u32,
    ;
}

/// What an input makes of a record: one that ignores its keycode only waits longer, and only
/// once its key is up; the input's own record stays as it is; a key that is down is used by
/// the input, and one that is up is released.
pub proof fn law_an_input_uses_or_releases_a_record(
    s: Sticky,
    keycode: Option<HidKeyCode>,
    origin: Action,
    profiles: StickyProfiles,
    now: Instant,
)
    requires
        now.ticks + STICKY_TIMEOUT_MAX_TICKS <= u64::MAX,
    ensures
        ({
            let rule = profiles.rule(s.profile);
            let claimed = claim_one(s, keycode, origin, profiles, now);
            if keycode matches Some(k) && rule.ignore.contains(k) {
                &&& claimed matches Some(t) && t == (Sticky { deadline: t.deadline, ..s })
                    && match s.phase {
                    StickyPhase::Armed => if rule.timeout_ms == 0 {
                        t.deadline.ticks == u64::MAX
                    } else {
                        t.deadline.ticks == now.ticks + rule.timeout_ms * 1000
                    },
                    _ => t.deadline == s.deadline,
                }
            } else if s.action == origin {
                claimed == Some(s)
            } else {
                match s.phase {
                    StickyPhase::Held => claimed matches Some(t) && t.phase is Used && t == (
                    Sticky { phase: t.phase, ..s }),
                    StickyPhase::Used => claimed == Some(s),
                    StickyPhase::Armed => claimed is None,
                }
            }
        }),
{
}

/// A deadline lies the profile's milliseconds after the moment it counts from, a thousand
/// ticks each. A profile without a timeout never expires before the last instant.
pub proof fn law_a_record_expires_after_its_timeout(
    s: Sticky,
    timeout_ms: u16,
    from: Instant,
    now: Instant,
)
    requires
        from.ticks + STICKY_TIMEOUT_MAX_TICKS <= u64::MAX,
        s.deadline == deadline_of(timeout_ms, from),
    ensures
        timeout_ms > 0 ==> (expired(now)(s) <==> now.ticks - from.ticks >= timeout_ms * 1000),
        timeout_ms == 0 ==> (expired(now)(s) <==> now.ticks == u64::MAX),
{
}

/// A layer that goes on ends the records of profiles that ask for that, a layer that goes off
/// those that ask for that, and neither one whose key is down.
pub proof fn law_layers_end_what_asks_for_it(
    s: Sticky,
    profiles: StickyProfiles,
    entered: bool,
    exited: bool,
)
    ensures
        ({
            let rule = profiles.rule(s.profile);
            &&& ended_by_layers(profiles, true, false)(s) <==> s.phase is Armed
                && rule.release_on_layer_enter
            &&& ended_by_layers(profiles, false, true)(s) <==> s.phase is Armed
                && rule.release_on_layer_exit
            &&& ended_by_layers(profiles, true, true)(s) <==> ended_by_layers(
                profiles,
                true,
                false,
            )(s) || ended_by_layers(profiles, false, true)(s)
            &&& !ended_by_layers(profiles, false, false)(s)
        }),
{
}

/// A key was held once as many milliseconds as the threshold have passed since its press, a
/// thousand ticks each; without a threshold of its own, 250 milliseconds.
pub proof fn law_a_hold_takes_its_threshold(s: Sticky, event_time: Instant, ms: Option<u16>)
    ensures
        event_time.ticks >= s.press_time.ticks ==> (held_long(
            s,
            event_time,
            hold_threshold(ms),
        ) <==> event_time.ticks - s.press_time.ticks >= (match ms {
            Some(own) => own * 1000,
            None => 250_000,
        })),
        event_time.ticks < s.press_time.ticks && hold_threshold(ms) > 0 ==> !held_long(
            s,
            event_time,
            hold_threshold(ms),
        ),
{
}

/// The layers that records keep lit are those that one of them does.
pub proof fn law_a_layer_is_lit_by_some_record(records: Seq<Sticky>, layer: u32)
    requires
        layer < 32,
    ensures
        (lit(records) >> layer) & 1 == 1 <==> exists|i: int|
            0 <= i < records.len() && (#[trigger] records[i].layers >> layer) & 1 == 1,
    decreases records.len(),
{
    if records.len() == 0 {
        assert((0u32 >> layer) & 1 != 1) by (bit_vector);
    } else {
        let below = records.drop_last();
        law_a_layer_is_lit_by_some_record(below, layer);
        let a = lit(below);
        let b = records.last().layers;
        assert(((a | b) >> layer) & 1 == 1 <==> (a >> layer) & 1 == 1 || (b >> layer) & 1 == 1)
            by (bit_vector)
            requires
                layer < 32,
        ;
        if (a >> layer) & 1 == 1 {
            let i = choose|i: int|
                0 <= i < below.len() && (#[trigger] below[i].layers >> layer) & 1 == 1;
            assert(records[i] == below[i]);
        }
        if (b >> layer) & 1 == 1 {
            assert((records[records.len() - 1].layers >> layer) & 1 == 1);
        }
        if exists|i: int|
            0 <= i < records.len() && (#[trigger] records[i].layers >> layer) & 1 == 1 {
            let i = choose|i: int|
                0 <= i < records.len() && (#[trigger] records[i].layers >> layer) & 1 == 1;
            if i < below.len() {
                assert(below[i] == records[i]);
            }
        }
    }
}

/// The layers to light again after a release are those that were lit before it, are not lit
/// now, and were not the record's alone.
pub proof fn law_only_layers_that_went_out_are_lit_again(
    r: Released,
    layers_before: u32,
    layers_now: u32,
    layer: u32,
)
    requires
        layer < 32,
    ensures
        (r.to_restore(layers_before, layers_now) >> layer) & 1 == 1 <==> (layers_before >> layer) & 1
            == 1 && (layers_now >> layer) & 1 != 1 && ((r.sticky.layers >> layer) & 1 == 1 ==> (
        r.still_lit >> layer) & 1 == 1),
{
    let b = layers_before;
    let n = layers_now;
    let o = r.sticky.layers;
    let k = r.still_lit;
    assert(((b & !n & !(o & !k)) >> layer) & 1 == 1 <==> (b >> layer) & 1 == 1 && (n >> layer) & 1
        != 1 && ((o >> layer) & 1 == 1 ==> (k >> layer) & 1 == 1)) by (bit_vector)
        requires
            layer < 32,
    ;
}

/// A record that is taken out is the one at its place. The others stay, and what they keep
/// lit is what it must not put out; it asks for a report of its own where its profile releases
/// with the next press.
pub proof fn law_a_record_is_taken_out_alone(
    records: Seq<Sticky>,
    i: int,
    profiles: StickyProfiles,
    layer: u32,
)
    requires
        0 <= i < records.len(),
        layer < 32,
    ensures
        ({
            let left = swap_removed(records, i);
            let r = released(records, i, profiles);
            &&& r.sticky == records[i]
            &&& left.len() == records.len() - 1
            &&& forall|j: int|
                0 <= j < left.len() ==> #[trigger] left[j] == records[if j == i {
                    records.len() - 1
                } else {
                    j
                }]
            &&& (r.still_lit >> layer) & 1 == 1 <==> exists|j: int|
                0 <= j < records.len() && j != i && (#[trigger] records[j].layers >> layer) & 1 == 1
            &&& r.quick <==> profiles.rule(records[i].profile).release_on_next_press
        }),
{
    let left = swap_removed(records, i);
    law_a_layer_is_lit_by_some_record(left, layer);
    if exists|j: int|
        0 <= j < records.len() && j != i && (#[trigger] records[j].layers >> layer) & 1 == 1 {
        let j = choose|j: int|
            0 <= j < records.len() && j != i && (#[trigger] records[j].layers >> layer) & 1 == 1;
        if j == records.len() - 1 {
            assert(left[i] == records[j]);
        } else {
            assert(left[j] == records[j]);
        }
    }
    if exists|j: int| 0 <= j < left.len() && (#[trigger] left[j].layers >> layer) & 1 == 1 {
        let j = choose|j: int| 0 <= j < left.len() && (#[trigger] left[j].layers >> layer) & 1 == 1;
        if j == i {
            assert(left[j] == records[records.len() - 1]);
        } else {
            assert(left[j] == records[j]);
        }
    }
}

/// A report follows a release where a quick one changed the output, or where what the host sees
/// changed and no report has shown it; a report that was written is not written twice.
pub proof fn law_a_catch_up_report_follows_a_change(
    batch: Vec<Released>,
    changed: Vec<bool>,
    visible_changed: bool,
    wrote_keyboard: bool,
    i: int,
    r: bool,
)
    requires
        catch_up_report.ensures((&batch, &changed, visible_changed, wrote_keyboard), r),
        batch@.len() == changed@.len(),
    ensures
        0 <= i < batch@.len() && batch@[i].quick && changed@[i] ==> r,
        visible_changed && !wrote_keyboard ==> r,
        (forall|j: int| 0 <= j < batch@.len() ==> !#[trigger] changed@[j]) && (!visible_changed
            || wrote_keyboard) ==> !r,
        batch@.len() == 0 ==> (r <==> visible_changed && !wrote_keyboard),
{
}

proof fn lemma_claim_sources(
    records: Seq<Sticky>,
    i: int,
    keycode: Option<HidKeyCode>,
    origin: Action,
    profiles: StickyProfiles,
    now: Instant,
    j: int,
)
    requires
        0 <= i <= j,
        j < claim_run(records, i, keycode, origin, profiles, now).0.len(),
        i <= records.len(),
    ensures
        exists|k: int|
            i <= k < records.len() && claim_one(
                #[trigger] records[k],
                keycode,
                origin,
                profiles,
                now,
            ) == Some(claim_run(records, i, keycode, origin, profiles, now).0[j]),
    decreases records.len() - i,
{
    lemma_claim_run(records, i, keycode, origin, profiles, now);
    if i < records.len() {
        match claim_one(records[i], keycode, origin, profiles, now) {
            Some(s) => {
                let next = records.update(i, s);
                lemma_claim_run(next, i + 1, keycode, origin, profiles, now);
                let rest = claim_run(next, i + 1, keycode, origin, profiles, now).0;
                assert(rest[i] == next[i]);
                if j > i {
                    lemma_claim_sources(next, i + 1, keycode, origin, profiles, now, j);
                    let k = choose|k: int|
                        i + 1 <= k < next.len() && claim_one(
                            #[trigger] next[k],
                            keycode,
                            origin,
                            profiles,
                            now,
                        ) == Some(rest[j]);
                    assert(records[k] == next[k]);
                }
            },
            None => {
                lemma_swap_removed(records, i);
                let left = swap_removed(records, i);
                lemma_claim_sources(left, i, keycode, origin, profiles, now, j);
                let rest = claim_run(left, i, keycode, origin, profiles, now).0;
                let k = choose|k: int|
                    i <= k < left.len() && claim_one(
                        #[trigger] left[k],
                        keycode,
                        origin,
                        profiles,
                        now,
                    ) == Some(rest[j]);
                assert(left[k] == records[if k == i {
                    records.len() - 1
                } else {
                    k
                }]);
            },
        }
    }
}

/// Each record that a claim leaves in the table was there before, with the same key, rule, layers
/// and place: a claim changes at most whether it is used and until when it waits.
pub proof fn law_a_claim_leaves_records_as_they_are(
    records: Seq<Sticky>,
    keycode: Option<HidKeyCode>,
    origin: Action,
    profiles: StickyProfiles,
    now: Instant,
    j: int,
)
    requires
        0 <= j < claim_run(records, 0, keycode, origin, profiles, now).0.len(),
    ensures
        ({
            let t = claim_run(records, 0, keycode, origin, profiles, now).0[j];
            exists|k: int|
                {
                    let s = #[trigger] records[k];
                    &&& 0 <= k < records.len()
                    &&& t == (Sticky { phase: t.phase, deadline: t.deadline, ..s })
                    &&& s.phase is Armed <==> t.phase is Armed
                    &&& s.phase is Used ==> t.phase is Used
                }
        }),
{
    lemma_claim_sources(records, 0, keycode, origin, profiles, now, j);
}

/// Two outputs are the same where the host sees no difference in any part of them, and only
/// there; what is the same as a third is the same.
pub proof fn law_outputs_are_the_same_in_all_their_parts(
    a: OutputSnapshot,
    b: OutputSnapshot,
    c: OutputSnapshot,
    i: int,
)
    ensures
        a.spec_same(&a),
        a.spec_same(&b) == b.spec_same(&a),
        a.spec_same(&b) && b.spec_same(&c) ==> a.spec_same(&c),
        0 <= i < 6 && a.keycodes@[i] != b.keycodes@[i] ==> !a.spec_same(&b),
        a.media != b.media ==> !a.spec_same(&b),
        a.system != b.system ==> !a.spec_same(&b),
        a.mouse_buttons != b.mouse_buttons ==> !a.spec_same(&b),
{
}

} // verus!
