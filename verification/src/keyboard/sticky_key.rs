//! Sticky Key: defer an ordinary action's release to a later trigger.
//!
//! A latch stores the action it must release and the event identity to replay it
//! with. Nothing here inspects what the action does, so any action can be sticky.
//! One-shot modifiers and layers are just latches over `Action::Modifier` and
//! `Action::LayerOn`.
//!
//! The action is applied when the Sticky key is pressed, because a latched layer
//! has to be active before the next key is resolved against the keymap. What
//! `activate_on_keypress` defers is the *report*, not the effect.
//!
//! The caller dispatches the actions. A latch handed out as ended is to be undone
//! by dispatching its release without a report; where any of those ended was
//! visible to the host, one report settles them all.

use vstd::prelude::*;
use crate::time::{Duration, Instant};
use crate::types::{Action, HidKeyCode, KeyCode, KeyboardEvent, KeyboardEventPos};

verus! {

/// Latches that may be active at once. Each is independent: they neither combine
/// nor exclude one another.
pub const MAX_ACTIVE: usize = 4;

/// The triggers that end a latch.
#[derive(Clone, Copy, Debug, PartialEq, Eq, Structural)]
pub struct StickyReleaseMode {
    /// Before the next key is dispatched, so that it does not receive the effect.
    pub before_other_key: bool,
    /// After the next key's press.
    pub other_key_press: bool,
    /// With the next key's release.
    pub other_key_release: bool,
    /// When a layer is activated.
    pub layer_enter: bool,
    /// When a layer is deactivated.
    pub layer_exit: bool,
    /// A second tap ends the latch and starts no new one.
    pub double_tap: bool,
}

/// How a Sticky key behaves.
#[derive(Clone, Copy, Debug)]
pub struct StickyKeyPolicy {
    /// How long an armed latch lasts. The longest span means forever.
    pub timeout: Duration,
    /// The keys that the latch ends on, or that it is kept on; none means that
    /// every key ends it.
    pub keys: &'static [KeyCode],
    /// Whether `keys` are kept rather than ended on.
    pub keys_keep: bool,
    /// Keys that the latch serves at most; 0 means no limit.
    pub max_repeat: u16,
    pub release_mode: StickyReleaseMode,
    /// How long the key is held for it to count as an ordinary key.
    pub release_after_hold: Option<Duration>,
    /// Report the effect when the key is pressed.
    pub activate_on_keypress: bool,
}

#[derive(Clone, Copy, Debug, PartialEq, Eq, Structural)]
pub enum LatchState {
    /// The Sticky key itself is still down. `peers` counts the other keys that
    /// were already down when it was pressed, and `used` records that a foreign
    /// key consumed the effect. Either makes it an ordinary held key.
    Down { since: Instant, peers: u16, used: bool },
    /// The Sticky key is up and the effect waits for a consumer.
    Armed(Option<Instant>),
    /// A foreign key claimed the latch; the next foreign key-up resolves it.
    Bound,
}

#[derive(Clone, Copy, Debug)]
pub struct Latch {
    /// The action to release later, and the event identity to replay it with.
    pub action: Action,
    pub event: KeyboardEvent,
    /// A combo output is pressed by the member key that completes the chord and
    /// released by the last one up, so it is matched by action, not position.
    pub from_combo: bool,
    pub policy: StickyKeyPolicy,
    /// Whether a report carrying this effect has reached the host. Undoing a
    /// latch the host never saw must stay silent, and so must its siblings.
    pub visible: bool,
    /// Foreign keys this latch has served, bounded by `policy.max_repeat`.
    pub uses: u16,
    pub state: LatchState,
}

impl Latch {
    /// The event to undo the latch with.
    pub fn release_event(&self) -> (r: KeyboardEvent)
        ensures
            r == (KeyboardEvent { pos: self.event.pos, pressed: false }),
    {
        KeyboardEvent { pos: self.event.pos, pressed: false }
    }
}

pub struct StickyKeys {
    pub latches: [Option<Latch>; MAX_ACTIVE],
}

/// What a Sticky key's own event asks for, in this order.
pub struct StickyKeyOutcome {
    /// Undo this latch, and settle the report where it was visible.
    pub ended: Option<Latch>,
    /// Dispatch the press; `Some(true)` holds its report back for a consumer.
    pub dispatch: Option<bool>,
}

// ---------------------------------------------------------------------------
// What the events mean
// ---------------------------------------------------------------------------

/// The first latch from `from` on for which `pred` holds.
pub open spec fn first(
    latches: Seq<Option<Latch>>,
    from: int,
    pred: spec_fn(Latch) -> bool,
) -> Option<int>
    decreases latches.len() - from,
{
    if from < 0 || from >= latches.len() {
        None
    } else if latches[from] matches Some(l) && pred(l) {
        Some(from)
    } else {
        first(latches, from + 1, pred)
    }
}

/// The first free slot from `from` on.
pub open spec fn first_free(latches: Seq<Option<Latch>>, from: int) -> Option<int>
    decreases latches.len() - from,
{
    if from < 0 || from >= latches.len() {
        None
    } else if latches[from] is None {
        Some(from)
    } else {
        first_free(latches, from + 1)
    }
}

pub open spec fn at_pos(pos: KeyboardEventPos) -> spec_fn(Latch) -> bool {
    |l: Latch| l.event.pos == pos
}

pub open spec fn combo_of(action: Action) -> spec_fn(Latch) -> bool {
    |l: Latch| l.from_combo && l.action == action
}

/// The latch that an event of a Sticky key is about. A press only ever re-presses
/// the key that made the latch.
pub open spec fn found(
    latches: Seq<Option<Latch>>,
    action: Action,
    event: KeyboardEvent,
) -> Option<int> {
    let here = first(latches, 0, at_pos(event.pos));
    if here is Some || event.pressed {
        here
    } else {
        first(latches, 0, combo_of(action))
    }
}

/// When a latch that is armed now times out.
pub open spec fn armed_until(policy: StickyKeyPolicy, now: Instant) -> Option<Instant> {
    if policy.timeout.ticks == u64::MAX {
        None
    } else {
        Some(Instant { ticks: (now.ticks + policy.timeout.ticks) as u64 })
    }
}

/// The keycode that an action produces.
pub open spec fn key_of(action: Action) -> Option<KeyCode> {
    match action {
        Action::Key(key) => Some(key),
        Action::KeyWithModifier(key, _) => Some(KeyCode::Hid(key)),
        _ => None,
    }
}

/// Whether `action` is one of the keys a policy ends its latch on.
pub open spec fn ends(policy: StickyKeyPolicy, action: Action) -> bool {
    policy.keys@.len() == 0 || ((key_of(action) matches Some(k) && policy.keys@.contains(k))
        != policy.keys_keep)
}

/// Whether the Sticky key's release makes it an ordinary key: a foreign key used
/// it, it was held long, or a key pressed after it is still down.
pub open spec fn was_ordinary(l: Latch, physical_keys_down: u16, now: Instant) -> bool {
    l.state matches LatchState::Down { since, peers, used } && {
        ||| used
        ||| (l.policy.release_after_hold matches Some(threshold) && elapsed(since, now)
            >= threshold.ticks)
        ||| physical_keys_down > peers
    }
}

pub open spec fn elapsed(since: Instant, now: Instant) -> int {
    if now.ticks >= since.ticks {
        now.ticks - since.ticks
    } else {
        0
    }
}

/// The latches after the Sticky key came up, and the one that ended.
pub open spec fn after_own_release(
    latches: Seq<Option<Latch>>,
    action: Action,
    event: KeyboardEvent,
    physical_keys_down: u16,
    now: Instant,
) -> (Seq<Option<Latch>>, Option<Latch>) {
    match found(latches, action, event) {
        Some(i) => match latches[i] {
            Some(l) => if !(l.state is Down) {
                (latches, None)
            } else if was_ordinary(l, physical_keys_down, now) {
                (latches.update(i, None), Some(l))
            } else {
                (
                    latches.update(
                        i,
                        Some(
                            Latch { state: LatchState::Armed(armed_until(l.policy, now)), ..l },
                        ),
                    ),
                    None,
                )
            },
            None => (latches, None),
        },
        None => (latches, None),
    }
}

/// The latch that a press makes.
pub open spec fn new_latch(
    action: Action,
    policy: StickyKeyPolicy,
    event: KeyboardEvent,
    from_combo: bool,
    pressed_at: Instant,
    physical_keys_down: u16,
) -> Latch {
    Latch {
        action,
        event,
        from_combo,
        policy,
        visible: false,
        uses: 0,
        state: LatchState::Down {
            since: pressed_at,
            peers: if from_combo || physical_keys_down == 0 {
                0
            } else {
                (physical_keys_down - 1) as u16
            },
            used: false,
        },
    }
}

/// The latches after the Sticky key went down and ended the running latch, if
/// there was one, and whether a new one is to start.
pub open spec fn after_re_press(
    latches: Seq<Option<Latch>>,
    action: Action,
    event: KeyboardEvent,
    policy: StickyKeyPolicy,
) -> (Seq<Option<Latch>>, Option<Latch>, bool) {
    match found(latches, action, event) {
        Some(i) => (
            latches.update(i, None),
            latches[i],
            !(latches[i] matches Some(l) && !(l.state is Down) && policy.release_mode.double_tap),
        ),
        None => (latches, None, true),
    }
}

/// What becomes of a latch before a foreign action is dispatched: what it turns
/// into, or `None` where it ends.
pub open spec fn before_foreign(
    l: Latch,
    action: Action,
    pressed: bool,
    now: Instant,
) -> Option<Latch> {
    let more = if l.uses < u16::MAX {
        (l.uses + 1) as u16
    } else {
        u16::MAX
    };
    let exhausted = l.policy.max_repeat != 0 && l.uses >= l.policy.max_repeat;
    if !ends(l.policy, action) {
        // A key this profile keeps: it uses the effect and refreshes the idle
        // window, but never claims or ends the latch.
        if pressed {
            Some(
                Latch {
                    uses: more,
                    state: if l.state is Armed {
                        LatchState::Armed(armed_until(l.policy, now))
                    } else {
                        l.state
                    },
                    ..l
                },
            )
        } else if exhausted {
            None
        } else {
            Some(l)
        }
    } else if pressed {
        if l.policy.release_mode.before_other_key {
            None
        } else {
            match l.state {
                LatchState::Down { since, peers, .. } => Some(
                    Latch { state: LatchState::Down { since, peers, used: true }, ..l },
                ),
                _ => Some(Latch { uses: more, state: LatchState::Bound, ..l }),
            }
        }
    } else if l.state is Bound && (l.policy.release_mode.other_key_release || exhausted) {
        None
    } else {
        Some(l)
    }
}

/// What becomes of a latch after a foreign action was dispatched.
pub open spec fn after_foreign(
    l: Latch,
    pressed: bool,
    entered: bool,
    exited: bool,
    now: Instant,
) -> Option<Latch> {
    let mode = l.policy.release_mode;
    let by_layer = (entered && mode.layer_enter) || (exited && mode.layer_exit);
    if by_layer || (pressed && l.state is Bound && mode.other_key_press) {
        None
    } else if !pressed && l.state is Bound {
        Some(Latch { state: LatchState::Armed(armed_until(l.policy, now)), ..l })
    } else {
        Some(l)
    }
}

/// What becomes of a latch when timeouts fire.
pub open spec fn after_timeouts(l: Latch, now: Instant) -> Option<Latch> {
    if l.state matches LatchState::Armed(Some(at)) && at.ticks <= now.ticks {
        None
    } else {
        Some(l)
    }
}

/// A slot after a step on its latch.
pub open spec fn slot_after(slot: Option<Latch>, step: spec_fn(Latch) -> Option<Latch>) -> Option<
    Latch,
> {
    match slot {
        Some(l) => step(l),
        None => None,
    }
}

/// The slots after a step on each latch.
pub open spec fn slots_after(
    latches: Seq<Option<Latch>>,
    step: spec_fn(Latch) -> Option<Latch>,
) -> Seq<Option<Latch>> {
    Seq::new(latches.len(), |i: int| slot_after(latches[i], step))
}

/// The latches among the first `n` slots that a step ends, in the order of their
/// slots.
pub open spec fn ended(
    latches: Seq<Option<Latch>>,
    n: int,
    step: spec_fn(Latch) -> Option<Latch>,
) -> Seq<Latch>
    decreases n,
{
    if n <= 0 {
        Seq::empty()
    } else {
        let below = ended(latches, n - 1, step);
        match latches[n - 1] {
            Some(l) => if step(l) is None {
                below.push(l)
            } else {
                below
            },
            None => below,
        }
    }
}

/// Whether an action is a modifier. A modifier never consumes a latch, so Sticky
/// modifiers stack with each other and with physically held modifier keys.
pub open spec fn is_modifier(action: Action) -> bool {
    match action {
        Action::Modifier(_) => true,
        Action::Key(KeyCode::Hid(key)) => key.spec_is_modifier(),
        _ => false,
    }
}

/// The latches that a foreign action keeps and whose timeout it starts again.
pub open spec fn refreshed_by(action: Action, pressed: bool) -> spec_fn(Latch) -> bool {
    |l: Latch| pressed && !is_modifier(action) && !ends(l.policy, action) && l.state is Armed
}

/// The latches that survive their consumer and are armed again.
pub open spec fn rearmed_after(pressed: bool, entered: bool, exited: bool) -> spec_fn(Latch) -> bool {
    |l: Latch|
        !pressed && l.state is Bound && !(entered && l.policy.release_mode.layer_enter) && !(exited
            && l.policy.release_mode.layer_exit)
}

/// Whether the timeout of each latch that is armed again can be counted from `now`.
pub open spec fn clock_fits(
    latches: Seq<Option<Latch>>,
    rearmed: spec_fn(Latch) -> bool,
    now: Instant,
) -> bool {
    forall|i: int|
        0 <= i < latches.len() ==> (#[trigger] latches[i] matches Some(l) ==> (rearmed(l)
            ==> timeout_fits(l.policy, now)))
}

/// The latch that the release of a Sticky key arms, if any.
pub open spec fn arms(
    latches: Seq<Option<Latch>>,
    action: Action,
    event: KeyboardEvent,
    physical_keys_down: u16,
    now: Instant,
) -> Option<Latch> {
    match found(latches, action, event) {
        Some(i) => match latches[i] {
            Some(l) => if l.state is Down && !was_ordinary(l, physical_keys_down, now) {
                Some(l)
            } else {
                None
            },
            None => None,
        },
        None => None,
    }
}

pub open spec fn timeout_fits(policy: StickyKeyPolicy, now: Instant) -> bool {
    policy.timeout.ticks == u64::MAX || now.ticks + policy.timeout.ticks <= u64::MAX
}

// ---------------------------------------------------------------------------
// Decisions
// ---------------------------------------------------------------------------

fn timeout_deadline(policy: StickyKeyPolicy, now: Instant) -> (r: Option<Instant>)
    requires
        timeout_fits(policy, now),
    ensures
        r == armed_until(policy, now),
{
    if policy.timeout.ticks == u64::MAX {
        None
    } else {
        Some(now.after(policy.timeout))
    }
}

/// Whether `action` is one of the keys this profile ends its latch on. An empty
/// list means every key ends it. Matching is by the keycode an action produces, so
/// a kept `Tab` also covers `WM(Tab, LShift)`.
pub fn ends_latch(policy: StickyKeyPolicy, action: Action) -> (r: bool)
    ensures
        r == ends(policy, action),
{
    if policy.keys.len() == 0 {
        return true;
    }
    let key = match action {
        Action::Key(key) => Some(key),
        Action::KeyWithModifier(key, _) => Some(KeyCode::Hid(key)),
        _ => None,
    };
    let mut listed: bool = false;
    if let Some(k) = key {
        let mut i: usize = 0;
        while i < policy.keys.len()
            invariant
                i <= policy.keys@.len(),
                listed == exists|j: int| 0 <= j < i && policy.keys@[j] == k,
            decreases policy.keys@.len() - i,
        {
            if policy.keys[i] == k {
                listed = true;
            }
            i = i + 1;
        }
        assert(listed == policy.keys@.contains(k));
    }
    listed != policy.keys_keep
}

/// Whether any of the latches was visible to the host.
pub fn any_visible(latches: &Vec<Latch>) -> (r: bool)
    ensures
        r == exists|i: int| 0 <= i < latches@.len() && #[trigger] latches@[i].visible,
{
    let mut i: usize = 0;
    while i < latches.len()
        invariant
            i <= latches@.len(),
            forall|j: int| 0 <= j < i ==> !#[trigger] latches@[j].visible,
        decreases latches@.len() - i,
    {
        if latches[i].visible {
            return true;
        }
        i = i + 1;
    }
    false
}

/// Whether undoing latches left the host's view stale: the modifiers or the keys
/// are not those of the last report.
pub fn settle_report(
    modifier: u8,
    keycodes: &[HidKeyCode; 6],
    last_modifier: u8,
    last_keycodes: &[HidKeyCode; 6],
) -> (r: bool)
    ensures
        r == (modifier != last_modifier || keycodes@ != last_keycodes@),
{
    if modifier != last_modifier {
        return true;
    }
    let mut i: usize = 0;
    while i < 6
        invariant
            i <= 6,
            forall|j: int| 0 <= j < i ==> keycodes@[j] == last_keycodes@[j],
        decreases 6 - i,
    {
        if keycodes[i] != last_keycodes[i] {
            return true;
        }
        i = i + 1;
    }
    assert(keycodes@ =~= last_keycodes@);
    false
}

impl Default for StickyKeys {
    fn default() -> (r: Self)
        ensures
            forall|i: int| 0 <= i < MAX_ACTIVE ==> #[trigger] r.latches@[i] is None,
    {
        StickyKeys { latches: [None;MAX_ACTIVE] }
    }
}

impl StickyKeys {
    /// The earliest armed timeout. Only `Armed` latches schedule a wakeup: a latch
    /// bound to a held key ends with that key, not with the clock.
    pub fn deadline(&self) -> (r: Option<Instant>)
        ensures
            match r {
                Some(d) => {
                    &&& exists|i: int|
                        0 <= i < MAX_ACTIVE && wakes_at(#[trigger] self.latches@[i]) == Some(d)
                    &&& forall|i: int|
                        0 <= i < MAX_ACTIVE ==> (wakes_at(#[trigger] self.latches@[i]) matches Some(
                            other,
                        ) ==> d.ticks <= other.ticks)
                },
                None => forall|i: int|
                    0 <= i < MAX_ACTIVE ==> wakes_at(#[trigger] self.latches@[i]) is None,
            },
    {
        let mut best: Option<Instant> = None;
        let mut i: usize = 0;
        while i < MAX_ACTIVE
            invariant
                i <= MAX_ACTIVE,
                match best {
                    Some(d) => {
                        &&& exists|j: int|
                            0 <= j < i && wakes_at(#[trigger] self.latches@[j]) == Some(d)
                        &&& forall|j: int|
                            0 <= j < i ==> (wakes_at(#[trigger] self.latches@[j]) matches Some(
                                other,
                            ) ==> d.ticks <= other.ticks)
                    },
                    None => forall|j: int|
                        0 <= j < i ==> wakes_at(#[trigger] self.latches@[j]) is None,
                },
            decreases MAX_ACTIVE - i,
        {
            let slot = self.latches[i];
            assert(slot == self.latches@[i as int]);
            if let Some(l) = slot {
                if let LatchState::Armed(Some(at)) = l.state {
                    let earlier = match best {
                        Some(b) => at.ticks < b.ticks,
                        None => true,
                    };
                    if earlier {
                        best = Some(at);
                    }
                }
            }
            i = i + 1;
        }
        best
    }

    /// Every live latch contributed to the report that just went out.
    pub fn mark_reported(&mut self)
        ensures
            forall|i: int|
                0 <= i < MAX_ACTIVE ==> #[trigger] final(self).latches@[i] == match old(
                    self,
                ).latches@[i] {
                    Some(l) => Some(Latch { visible: true, ..l }),
                    None => None,
                },
    {
        let mut i: usize = 0;
        while i < MAX_ACTIVE
            invariant
                i <= MAX_ACTIVE,
                forall|j: int|
                    0 <= j < MAX_ACTIVE ==> #[trigger] self.latches@[j] == if j < i {
                        match old(self).latches@[j] {
                            Some(l) => Some(Latch { visible: true, ..l }),
                            None => None,
                        }
                    } else {
                        old(self).latches@[j]
                    },
            decreases MAX_ACTIVE - i,
        {
            if let Some(l) = self.latches[i] {
                self.latches[i] = Some(Latch { visible: true, ..l });
            }
            i = i + 1;
        }
    }

    fn find(&self, action: Action, event: KeyboardEvent) -> (r: Option<usize>)
        ensures
            match r {
                Some(i) => i < MAX_ACTIVE && found(self.latches@, action, event) == Some(i as int)
                    && self.latches@[i as int] is Some,
                None => found(self.latches@, action, event) is None,
            },
    {
        let ghost here = at_pos(event.pos);
        let mut i: usize = 0;
        while i < MAX_ACTIVE
            invariant
                i <= MAX_ACTIVE,
                here == at_pos(event.pos),
                first(self.latches@, 0, here) == first(self.latches@, i as int, here),
            decreases MAX_ACTIVE - i,
        {
            if let Some(l) = self.latches[i] {
                assert(here(l) == (l.event.pos == event.pos));
                if l.event.pos == event.pos {
                    return Some(i);
                }
            }
            i = i + 1;
        }
        if event.pressed {
            return None;
        }
        let ghost combo = combo_of(action);
        let mut k: usize = 0;
        while k < MAX_ACTIVE
            invariant
                k <= MAX_ACTIVE,
                !event.pressed,
                first(self.latches@, 0, at_pos(event.pos)) is None,
                combo == combo_of(action),
                first(self.latches@, 0, combo) == first(self.latches@, k as int, combo),
            decreases MAX_ACTIVE - k,
        {
            if let Some(l) = self.latches[k] {
                assert(combo(l) == (l.from_combo && l.action == action));
                if l.from_combo && l.action == action {
                    return Some(k);
                }
            }
            k = k + 1;
        }
        None
    }

    fn free_slot(&self) -> (r: Option<usize>)
        ensures
            match r {
                Some(i) => i < MAX_ACTIVE && first_free(self.latches@, 0) == Some(i as int),
                None => first_free(self.latches@, 0) is None,
            },
    {
        let mut i: usize = 0;
        while i < MAX_ACTIVE
            invariant
                i <= MAX_ACTIVE,
                first_free(self.latches@, 0) == first_free(self.latches@, i as int),
            decreases MAX_ACTIVE - i,
        {
            if self.latches[i].is_none() {
                return Some(i);
            }
            i = i + 1;
        }
        None
    }

    /// The Sticky key's own press and release. `physical_keys_down` counts the keys
    /// that are down, this one too while it is.
    pub fn process_sticky_key(
        &mut self,
        action: Action,
        policy: StickyKeyPolicy,
        event: KeyboardEvent,
        from_combo: bool,
        pressed_at: Instant,
        physical_keys_down: u16,
        now: Instant,
    ) -> (r: StickyKeyOutcome)
        requires
            !event.pressed ==> (arms(
                old(self).latches@,
                action,
                event,
                physical_keys_down,
                now,
            ) matches Some(l) ==> timeout_fits(l.policy, now)),
        ensures
            ({
                let before = old(self).latches@;
                let after = final(self).latches@;
                if !event.pressed {
                    &&& (after, r.ended) == after_own_release(
                        before,
                        action,
                        event,
                        physical_keys_down,
                        now,
                    )
                    &&& r.dispatch is None
                } else {
                    let (cleared, gone, start) = after_re_press(before, action, event, policy);
                    &&& r.ended == gone
                    &&& match first_free(cleared, 0) {
                        Some(slot) if start => {
                            &&& after == cleared.update(
                                slot,
                                Some(
                                    new_latch(
                                        action,
                                        policy,
                                        event,
                                        from_combo,
                                        pressed_at,
                                        physical_keys_down,
                                    ),
                                ),
                            )
                            &&& r.dispatch == Some(!policy.activate_on_keypress)
                        },
                        _ => after == cleared && r.dispatch is None,
                    }
                }
            }),
    {
        let existing = self.find(action, event);
        if !event.pressed {
            if let Some(index) = existing {
                if let Some(latch) = self.latches[index] {
                    if let LatchState::Down { since, peers, used } = latch.state {
                        let held = match latch.policy.release_after_hold {
                            Some(threshold) => now.saturating_duration_since(since).ticks
                                >= threshold.ticks,
                            None => false,
                        };
                        let chorded = physical_keys_down > peers;
                        if used || held || chorded {
                            self.latches[index] = None;
                            return StickyKeyOutcome { ended: Some(latch), dispatch: None };
                        }
                        assert(self.latches@[index as int] is Some);
                        self.latches[index] =
                        Some(
                            Latch {
                                state: LatchState::Armed(timeout_deadline(latch.policy, now)),
                                ..latch
                            },
                        );
                    }
                }
            }
            return StickyKeyOutcome { ended: None, dispatch: None };
        }
        let mut gone: Option<Latch> = None;
        let mut start: bool = true;
        if let Some(index) = existing {
            if let Some(latch) = self.latches[index] {
                let latched = match latch.state {
                    LatchState::Down { .. } => false,
                    _ => true,
                };
                gone = Some(latch);
                self.latches[index] = None;
                start = !(latched && policy.release_mode.double_tap);
            }
        }
        if !start {
            return StickyKeyOutcome { ended: gone, dispatch: None };
        }
        match self.free_slot() {
            Some(slot) => {
                let peers: u16 = if from_combo || physical_keys_down == 0 {
                    0
                } else {
                    physical_keys_down - 1
                };
                self.latches[slot] =
                Some(
                    Latch {
                        action,
                        event,
                        from_combo,
                        policy,
                        visible: false,
                        uses: 0,
                        state: LatchState::Down { since: pressed_at, peers, used: false },
                    },
                );
                StickyKeyOutcome { ended: gone, dispatch: Some(!policy.activate_on_keypress) }
            },
            None => StickyKeyOutcome { ended: gone, dispatch: None },
        }
    }

    /// Before a foreign action is dispatched: claim latches on a press, and end the
    /// ones whose consuming key is going up, so both halves land in the report that
    /// action is about to send. The latches that ended.
    pub fn sticky_before(&mut self, action: Action, pressed: bool, now: Instant) -> (r: Vec<Latch>)
        requires
            clock_fits(old(self).latches@, refreshed_by(action, pressed), now),
        ensures
            ({
                let step = |l: Latch|
                    if is_modifier(action) {
                        Some(l)
                    } else {
                        before_foreign(l, action, pressed, now)
                    };
                &&& final(self).latches@ == slots_after(old(self).latches@, step)
                &&& r@ == ended(old(self).latches@, MAX_ACTIVE as int, step)
            }),
    {
        let ghost step = |l: Latch|
            if is_modifier(action) {
                Some(l)
            } else {
                before_foreign(l, action, pressed, now)
            };
        let ghost before = self.latches@;
        let modifier = match action {
            Action::Modifier(_) => true,
            Action::Key(KeyCode::Hid(key)) => key.is_modifier(),
            _ => false,
        };
        assert(modifier == is_modifier(action));
        let mut out: Vec<Latch> = Vec::new();
        let mut i: usize = 0;
        while i < MAX_ACTIVE
            invariant
                i <= MAX_ACTIVE,
                modifier == is_modifier(action),
                before == old(self).latches@,
                clock_fits(before, refreshed_by(action, pressed), now),
                step == (|l: Latch|
                    if is_modifier(action) {
                        Some(l)
                    } else {
                        before_foreign(l, action, pressed, now)
                    }),
                forall|j: int|
                    0 <= j < MAX_ACTIVE ==> #[trigger] self.latches@[j] == if j < i {
                        slot_after(before[j], step)
                    } else {
                        before[j]
                    },
                out@ == ended(before, i as int, step),
            decreases MAX_ACTIVE - i,
        {
            let slot = self.latches[i];
            assert(slot == before[i as int]);
            if let Some(l) = slot {
                assert(refreshed_by(action, pressed)(l) ==> timeout_fits(l.policy, now));
                let after = if modifier {
                    Some(l)
                } else {
                    Self::claim(l, action, pressed, now)
                };
                assert(after == step(l));
                self.latches[i] = after;
                if after.is_none() {
                    out.push(l);
                }
            }
            i = i + 1;
        }
        assert(self.latches@ =~= slots_after(before, step));
        out
    }

    fn claim(l: Latch, action: Action, pressed: bool, now: Instant) -> (r: Option<Latch>)
        requires
            pressed && !ends(l.policy, action) && l.state is Armed ==> timeout_fits(l.policy, now),
        ensures
            r == before_foreign(l, action, pressed, now),
    {
        let more: u16 = if l.uses < u16::MAX {
            l.uses + 1
        } else {
            u16::MAX
        };
        let exhausted = l.policy.max_repeat != 0 && l.uses >= l.policy.max_repeat;
        if !ends_latch(l.policy, action) {
            if pressed {
                let state = match l.state {
                    LatchState::Armed(_) => LatchState::Armed(timeout_deadline(l.policy, now)),
                    other => other,
                };
                return Some(Latch { uses: more, state, ..l });
            }
            if exhausted {
                return None;
            }
            return Some(l);
        }
        if pressed {
            if l.policy.release_mode.before_other_key {
                // The key must not receive the effect, so undo it first.
                return None;
            }
            return match l.state {
                LatchState::Down { since, peers, .. } => Some(
                    Latch { state: LatchState::Down { since, peers, used: true }, ..l },
                ),
                _ => Some(Latch { uses: more, state: LatchState::Bound, ..l }),
            };
        }
        // A consuming key is going up: release now so that key's report shows the key
        // and the effect leaving together.

        let bound = match l.state {
            LatchState::Bound => true,
            _ => false,
        };
        if bound && (l.policy.release_mode.other_key_release || exhausted) {
            None
        } else {
            Some(l)
        }
    }

    /// After a foreign action is dispatched: end every latch whose remaining trigger
    /// fired, and re-arm the ones that survived their consumer. `layers_*` are the
    /// layer masks around the dispatch. The latches that ended.
    pub fn sticky_after(
        &mut self,
        pressed: bool,
        layers_before: u32,
        layers_now: u32,
        now: Instant,
    ) -> (r: Vec<Latch>)
        requires
            clock_fits(
                old(self).latches@,
                rearmed_after(
                    pressed,
                    layers_now & !layers_before != 0,
                    layers_before & !layers_now != 0,
                ),
                now,
            ),
        ensures
            ({
                let step = |l: Latch|
                    after_foreign(
                        l,
                        pressed,
                        layers_now & !layers_before != 0,
                        layers_before & !layers_now != 0,
                        now,
                    );
                &&& final(self).latches@ == slots_after(old(self).latches@, step)
                &&& r@ == ended(old(self).latches@, MAX_ACTIVE as int, step)
            }),
    {
        let entered = layers_now & !layers_before != 0;
        let exited = layers_before & !layers_now != 0;
        let ghost step = |l: Latch|
            after_foreign(
                l,
                pressed,
                layers_now & !layers_before != 0,
                layers_before & !layers_now != 0,
                now,
            );
        let ghost before = self.latches@;
        let mut out: Vec<Latch> = Vec::new();
        let mut i: usize = 0;
        while i < MAX_ACTIVE
            invariant
                i <= MAX_ACTIVE,
                entered == (layers_now & !layers_before != 0),
                exited == (layers_before & !layers_now != 0),
                before == old(self).latches@,
                clock_fits(before, rearmed_after(pressed, entered, exited), now),
                step == (|l: Latch|
                    after_foreign(
                        l,
                        pressed,
                        layers_now & !layers_before != 0,
                        layers_before & !layers_now != 0,
                        now,
                    )),
                forall|j: int|
                    0 <= j < MAX_ACTIVE ==> #[trigger] self.latches@[j] == if j < i {
                        slot_after(before[j], step)
                    } else {
                        before[j]
                    },
                out@ == ended(before, i as int, step),
            decreases MAX_ACTIVE - i,
        {
            let slot = self.latches[i];
            assert(slot == before[i as int]);
            if let Some(l) = slot {
                assert(rearmed_after(pressed, entered, exited)(l) ==> timeout_fits(l.policy, now));
                let mode = l.policy.release_mode;
                let bound = match l.state {
                    LatchState::Bound => true,
                    _ => false,
                };
                let by_layer = (entered && mode.layer_enter) || (exited && mode.layer_exit);
                let after = if by_layer || (pressed && bound && mode.other_key_press) {
                    None
                } else if !pressed && bound {
                    Some(Latch { state: LatchState::Armed(timeout_deadline(l.policy, now)), ..l })
                } else {
                    Some(l)
                };
                assert(after == step(l));
                self.latches[i] = after;
                if after.is_none() {
                    out.push(l);
                }
            }
            i = i + 1;
        }
        assert(self.latches@ =~= slots_after(before, step));
        out
    }

    /// End every latch whose armed timeout has passed. The latches that ended.
    pub fn sticky_expire(&mut self, now: Instant) -> (r: Vec<Latch>)
        ensures
            ({
                let step = |l: Latch| after_timeouts(l, now);
                &&& final(self).latches@ == slots_after(old(self).latches@, step)
                &&& r@ == ended(old(self).latches@, MAX_ACTIVE as int, step)
            }),
    {
        let ghost step = |l: Latch| after_timeouts(l, now);
        let ghost before = self.latches@;
        let mut out: Vec<Latch> = Vec::new();
        let mut i: usize = 0;
        while i < MAX_ACTIVE
            invariant
                i <= MAX_ACTIVE,
                before == old(self).latches@,
                step == (|l: Latch| after_timeouts(l, now)),
                forall|j: int|
                    0 <= j < MAX_ACTIVE ==> #[trigger] self.latches@[j] == if j < i {
                        slot_after(before[j], step)
                    } else {
                        before[j]
                    },
                out@ == ended(before, i as int, step),
            decreases MAX_ACTIVE - i,
        {
            let slot = self.latches[i];
            assert(slot == before[i as int]);
            if let Some(l) = slot {
                let due = match l.state {
                    LatchState::Armed(Some(at)) => at.ticks <= now.ticks,
                    _ => false,
                };
                assert(due == (step(l) is None));
                assert(!due ==> step(l) == Some(l));
                if due {
                    self.latches[i] = None;
                    out.push(l);
                }
            }
            i = i + 1;
        }
        assert(self.latches@ =~= slots_after(before, step));
        out
    }
}

/// When a slot wants to be woken.
pub open spec fn wakes_at(slot: Option<Latch>) -> Option<Instant> {
    match slot {
        Some(l) => match l.state {
            LatchState::Armed(deadline) => deadline,
            _ => None,
        },
        None => None,
    }
}

// ---------------------------------------------------------------------------
// Laws
// ---------------------------------------------------------------------------

/// A latch that ends on the next key's release serves exactly that key: the press
/// of a key it ends on claims it, it lasts while the key is down, and it ends with
/// the key's release.
pub proof fn law_a_latch_serves_the_next_key(
    l: Latch,
    action: Action,
    press_time: Instant,
    release_time: Instant,
)
    requires
        l.state is Armed,
        ends(l.policy, action),
        l.policy.release_mode.other_key_release,
        !l.policy.release_mode.before_other_key,
        !l.policy.release_mode.other_key_press,
    ensures
        ({
            let claimed = before_foreign(l, action, true, press_time);
            &&& claimed is Some
            &&& claimed->0.state is Bound
            &&& after_foreign(claimed->0, true, false, false, press_time) == claimed
            &&& before_foreign(claimed->0, action, false, release_time) is None
        }),
{
}

/// A key that a profile keeps never claims the latch and never ends it on its press.
pub proof fn law_a_kept_key_does_not_claim(l: Latch, action: Action, now: Instant)
    requires
        !ends(l.policy, action),
    ensures
        ({
            let after = before_foreign(l, action, true, now);
            &&& after is Some
            &&& l.state is Armed ==> after->0.state is Armed
            &&& l.state is Down ==> after->0.state == l.state
        }),
{
}

/// No armed latch outlives its timeout, and no other latch has one.
pub proof fn law_no_latch_outlives_its_timeout(l: Latch, now: Instant)
    ensures
        match after_timeouts(l, now) {
            Some(kept) => kept == l && (wakes_at(Some(kept)) matches Some(at) ==> at.ticks
                > now.ticks),
            None => wakes_at(Some(l)) matches Some(at) && at.ticks <= now.ticks,
        },
{
}

/// A second tap of an armed Sticky key whose profile ends on a double tap ends its
/// latch and starts no other.
pub proof fn law_a_double_tap_ends_the_latch(
    latches: Seq<Option<Latch>>,
    action: Action,
    event: KeyboardEvent,
    policy: StickyKeyPolicy,
    i: int,
)
    requires
        event.pressed,
        policy.release_mode.double_tap,
        found(latches, action, event) == Some(i),
        latches[i] matches Some(l) && l.state is Armed,
    ensures
        after_re_press(latches, action, event, policy) == (
            latches.update(i, None),
            latches[i],
            false,
        ),
{
}

/// The listed keys, and no others, end a latch whose policy ends on them; under a policy that
/// keeps them it is the other way round, for every action. A key counts as itself and with
/// modifiers alike, and an action that is no key is none of the listed. Where no key is
/// listed, everything ends the latch.
pub proof fn law_the_listed_keys_end_or_keep(policy: StickyKeyPolicy, action: Action)
    ensures
        policy.keys@.len() == 0 ==> ends(policy, action),
        policy.keys@.len() > 0 ==> {
            &&& ends(StickyKeyPolicy { keys_keep: true, ..policy }, action) <==> !ends(
                StickyKeyPolicy { keys_keep: false, ..policy },
                action,
            )
            &&& match action {
                Action::Key(key) => ends(policy, action) <==> !policy.keys_keep == (exists|i: int|
                    0 <= i < policy.keys@.len() && #[trigger] policy.keys@[i] == key),
                Action::KeyWithModifier(key, _) => ends(policy, action) <==> !policy.keys_keep == (
                exists|i: int|
                    0 <= i < policy.keys@.len() && #[trigger] policy.keys@[i] == KeyCode::Hid(key)),
                _ => ends(policy, action) <==> policy.keys_keep,
            }
        },
{
    match action {
        Action::Key(key) => {
            if exists|i: int| 0 <= i < policy.keys@.len() && #[trigger] policy.keys@[i] == key {
                assert(policy.keys@.contains(key));
            }
        },
        Action::KeyWithModifier(key, _) => {
            if exists|i: int|
                0 <= i < policy.keys@.len() && #[trigger] policy.keys@[i] == KeyCode::Hid(key) {
                assert(policy.keys@.contains(KeyCode::Hid(key)));
            }
        },
        _ => {},
    }
}

/// A latch never changes what it releases, nor under which policy, before it ends.
pub proof fn law_a_latch_keeps_what_it_releases(
    l: Latch,
    action: Action,
    pressed: bool,
    entered: bool,
    exited: bool,
    now: Instant,
)
    ensures
        before_foreign(l, action, pressed, now) matches Some(after) ==> after.action == l.action
            && after.event == l.event && after.from_combo == l.from_combo && after.policy
            == l.policy && after.visible == l.visible,
        after_foreign(l, pressed, entered, exited, now) matches Some(after) ==> after.action
            == l.action && after.event == l.event && after.from_combo == l.from_combo
            && after.policy == l.policy && after.visible == l.visible && after.uses == l.uses,
{
}

/// A key that uses an idle latch is counted, once, with its press: the count never falls,
/// never rises with a release, and rises by one with the press of a foreign key, up to its
/// limit. A Sticky key that is still down counts only the keys it is kept on.
pub proof fn law_each_key_is_counted_once(l: Latch, action: Action, pressed: bool, now: Instant)
    ensures
        before_foreign(l, action, pressed, now) matches Some(after) ==> {
            &&& !pressed ==> after == l
            &&& pressed && l.uses < u16::MAX && (l.state is Down ==> !ends(l.policy, action))
                ==> after.uses == l.uses + 1
            &&& pressed && l.uses == u16::MAX ==> after.uses == l.uses
            &&& pressed && l.state is Down && ends(l.policy, action) ==> after.uses == l.uses
        },
{
}

/// When a foreign key ends a latch before it is dispatched: with its press only where the
/// policy spares the next key the effect, and with a release where the latch is bound and
/// ends with releases, or has served as many keys as it may. A policy without a limit never
/// runs out.
pub proof fn law_when_a_foreign_key_ends_a_latch(
    l: Latch,
    action: Action,
    pressed: bool,
    now: Instant,
)
    ensures
        pressed ==> (before_foreign(l, action, pressed, now) is None <==> l.policy
            .release_mode.before_other_key && ends(l.policy, action)),
        !pressed && ends(l.policy, action) ==> (before_foreign(l, action, pressed, now) is None
            <==> l.state is Bound && (l.policy.release_mode.other_key_release || (0
            < l.policy.max_repeat <= l.uses))),
        !pressed && !ends(l.policy, action) ==> (before_foreign(l, action, pressed, now) is None
            <==> 0 < l.policy.max_repeat <= l.uses),
{
}

/// What a press that leaves the latch running makes of its state: a key that ends it claims
/// it, or marks the Sticky key used while that is down; a key that it is kept on starts an
/// armed latch's timeout again.
pub proof fn law_a_foreign_press_claims_a_latch(l: Latch, action: Action, now: Instant)
    requires
        !l.policy.release_mode.before_other_key || !ends(l.policy, action),
    ensures
        before_foreign(l, action, true, now) matches Some(after) && match l.state {
            LatchState::Down { since, peers, used } => after.state matches LatchState::Down {
                since: since_after,
                peers: peers_after,
                used: used_after,
            } && since_after == since && peers_after == peers && used_after == (used || ends(
                l.policy,
                action,
            )),
            LatchState::Armed(_) => if ends(l.policy, action) {
                after.state is Bound
            } else {
                after.state == LatchState::Armed(armed_until(l.policy, now))
            },
            LatchState::Bound => after.state is Bound,
        },
{
}

/// When a dispatched foreign action ends a latch: a layer that goes on or off where the
/// policy ends on that, and the press that claimed it where the policy ends on presses. A
/// claimed latch that outlives its key's release waits for the next key, with a new timeout;
/// every other one stays as it is.
pub proof fn law_a_latch_that_outlives_its_key_waits_again(
    l: Latch,
    pressed: bool,
    entered: bool,
    exited: bool,
    now: Instant,
)
    ensures
        ({
            let mode = l.policy.release_mode;
            match after_foreign(l, pressed, entered, exited, now) {
                None => {
                    ||| entered && mode.layer_enter
                    ||| exited && mode.layer_exit
                    ||| pressed && mode.other_key_press && l.state is Bound
                },
                Some(after) => {
                    &&& !(entered && mode.layer_enter)
                    &&& !(exited && mode.layer_exit)
                    &&& !(pressed && mode.other_key_press && l.state is Bound)
                    &&& if l.state is Bound && !pressed {
                        after.state == LatchState::Armed(armed_until(l.policy, now))
                    } else {
                        after == l
                    }
                },
            }
        }),
{
}

/// A latch that is armed lasts as long as its policy says, and forever where that is the
/// longest span.
pub proof fn law_an_armed_latch_lasts_for_its_timeout(policy: StickyKeyPolicy, now: Instant)
    requires
        timeout_fits(policy, now),
    ensures
        match armed_until(policy, now) {
            None => policy.timeout.ticks == u64::MAX,
            Some(at) => policy.timeout.ticks < u64::MAX && at.ticks - now.ticks
                == policy.timeout.ticks,
        },
{
}

/// Whether a Sticky key was used as an ordinary one: another key used it, it was held for at
/// least the span its policy names, or more keys are down than were before it.
pub proof fn law_a_sticky_key_that_was_used_is_ordinary(
    l: Latch,
    physical_keys_down: u16,
    now: Instant,
)
    ensures
        was_ordinary(l, physical_keys_down, now) ==> l.state is Down,
        l.state matches LatchState::Down { since, peers, used } ==> {
            &&& used ==> was_ordinary(l, physical_keys_down, now)
            &&& physical_keys_down > peers ==> was_ordinary(l, physical_keys_down, now)
            &&& (l.policy.release_after_hold matches Some(span) && since.ticks + span.ticks
                <= now.ticks) ==> was_ordinary(l, physical_keys_down, now)
            &&& !used && physical_keys_down <= peers && (l.policy.release_after_hold matches Some(
                span,
            ) ==> span.ticks > 0 && now.ticks < since.ticks + span.ticks) ==> !was_ordinary(
                l,
                physical_keys_down,
                now,
            )
        },
{
}

/// A new latch releases what was pressed, from where it was pressed. It has served no key,
/// the host has not seen it, and the other keys that were down are its peers; a combo has
/// none.
pub proof fn law_a_new_latch_has_served_no_key(
    action: Action,
    policy: StickyKeyPolicy,
    event: KeyboardEvent,
    from_combo: bool,
    pressed_at: Instant,
    physical_keys_down: u16,
)
    ensures
        ({
            let l = new_latch(action, policy, event, from_combo, pressed_at, physical_keys_down);
            &&& l.action == action && l.event == event && l.from_combo == from_combo
            &&& l.policy == policy && !l.visible && l.uses == 0
            &&& l.state matches LatchState::Down { since, peers, used } && since == pressed_at
                && !used && (from_combo ==> peers == 0) && (!from_combo && physical_keys_down > 0
                ==> peers + 1 == physical_keys_down) && (physical_keys_down == 0 ==> peers == 0)
        }),
{
}

proof fn lemma_first(latches: Seq<Option<Latch>>, from: int, pred: spec_fn(Latch) -> bool)
    requires
        0 <= from,
    ensures
        match first(latches, from, pred) {
            Some(k) => from <= k < latches.len() && latches[k] is Some && pred(latches[k]->0)
                && forall|j: int|
                from <= j < k ==> !(#[trigger] latches[j] matches Some(l) && pred(l)),
            None => forall|j: int|
                from <= j < latches.len() ==> !(#[trigger] latches[j] matches Some(l) && pred(l)),
        },
    decreases latches.len() - from,
{
    if from < latches.len() && !(latches[from] matches Some(l) && pred(l)) {
        lemma_first(latches, from + 1, pred);
    }
}

proof fn lemma_first_free(latches: Seq<Option<Latch>>, from: int)
    requires
        0 <= from,
    ensures
        match first_free(latches, from) {
            Some(k) => from <= k < latches.len() && latches[k] is None && forall|j: int|
                from <= j < k ==> #[trigger] latches[j] is Some,
            None => forall|j: int| from <= j < latches.len() ==> #[trigger] latches[j] is Some,
        },
    decreases latches.len() - from,
{
    if from < latches.len() && latches[from] is Some {
        lemma_first_free(latches, from + 1);
    }
}

/// The latch that a Sticky key's event is about is the first one made at its place. A release
/// without one is about the first combo's latch over the same action; a press without one is
/// about none.
pub proof fn law_a_sticky_key_finds_its_own_latch(
    latches: Seq<Option<Latch>>,
    action: Action,
    event: KeyboardEvent,
)
    ensures
        match found(latches, action, event) {
            Some(k) => 0 <= k < latches.len() && latches[k] is Some && {
                ||| latches[k]->0.event.pos == event.pos && forall|j: int|
                    0 <= j < k ==> !(#[trigger] latches[j] matches Some(l) && l.event.pos
                        == event.pos)
                ||| !event.pressed && latches[k]->0.from_combo && latches[k]->0.action == action
                    && (forall|j: int|
                    0 <= j < latches.len() ==> !(#[trigger] latches[j] matches Some(l)
                        && l.event.pos == event.pos)) && forall|j: int|
                    0 <= j < k ==> !(#[trigger] latches[j] matches Some(l) && l.from_combo
                        && l.action == action)
            },
            None => forall|j: int|
                0 <= j < latches.len() ==> !(#[trigger] latches[j] matches Some(l) && (l.event.pos
                    == event.pos || (!event.pressed && l.from_combo && l.action == action))),
        },
{
    lemma_first(latches, 0, at_pos(event.pos));
    lemma_first(latches, 0, combo_of(action));
    match found(latches, action, event) {
        Some(k) => {
            assert forall|j: int| 0 <= j < k implies !(#[trigger] latches[j] matches Some(l)
                && l.event.pos == event.pos) by {
                if let Some(l) = latches[j] {
                    assert(at_pos(event.pos)(l) == (l.event.pos == event.pos));
                }
            }
            if first(latches, 0, at_pos(event.pos)) is None {
                assert forall|j: int| 0 <= j < latches.len() implies !(#[trigger] latches[j] matches
                    Some(l) && l.event.pos == event.pos) by {
                    if let Some(l) = latches[j] {
                        assert(at_pos(event.pos)(l) == (l.event.pos == event.pos));
                    }
                }
                assert forall|j: int| 0 <= j < k implies !(#[trigger] latches[j] matches Some(l)
                    && l.from_combo && l.action == action) by {
                    if let Some(l) = latches[j] {
                        assert(combo_of(action)(l) == (l.from_combo && l.action == action));
                    }
                }
            }
        },
        None => {
            assert forall|j: int| 0 <= j < latches.len() implies !(#[trigger] latches[j] matches
                Some(l) && (l.event.pos == event.pos || (!event.pressed && l.from_combo && l.action
                == action))) by {
                if let Some(l) = latches[j] {
                    assert(at_pos(event.pos)(l) == (l.event.pos == event.pos));
                    assert(combo_of(action)(l) == (l.from_combo && l.action == action));
                }
            }
        },
    }
}

/// The release of a Sticky key touches its own latch alone. One that was used as an ordinary
/// key ends; one that was tapped waits for a key from now on; one that is no longer down
/// stays as it is.
pub proof fn law_a_tapped_sticky_key_waits(
    latches: Seq<Option<Latch>>,
    action: Action,
    event: KeyboardEvent,
    physical_keys_down: u16,
    now: Instant,
    j: int,
)
    requires
        0 <= j < latches.len(),
    ensures
        ({
            let (after, gone) = after_own_release(
                latches,
                action,
                event,
                physical_keys_down,
                now,
            );
            &&& after.len() == latches.len()
            &&& found(latches, action, event) != Some(j) ==> after[j] == latches[j]
            &&& found(latches, action, event) is None ==> gone is None
            &&& found(latches, action, event) == Some(j) && latches[j] is Some ==> {
                let l = latches[j]->0;
                if !(l.state is Down) {
                    after[j] == Some(l) && gone is None
                } else if was_ordinary(l, physical_keys_down, now) {
                    after[j] is None && gone == Some(l)
                } else {
                    &&& gone is None
                    &&& after[j] matches Some(m) && m.state is Armed && wakes_at(Some(m))
                        == armed_until(l.policy, now) && m.action == l.action && m.event == l.event
                        && m.policy == l.policy && m.uses == l.uses && m.visible == l.visible
                }
            }
        }),
{
    lemma_first(latches, 0, at_pos(event.pos));
    lemma_first(latches, 0, combo_of(action));
}

/// A press of a Sticky key ends its running latch and no other, and starts a new one unless
/// it is the second tap of a double tap.
pub proof fn law_a_new_press_replaces_the_latch(
    latches: Seq<Option<Latch>>,
    action: Action,
    event: KeyboardEvent,
    policy: StickyKeyPolicy,
    j: int,
)
    requires
        event.pressed,
        0 <= j < latches.len(),
    ensures
        ({
            let (cleared, gone, start) = after_re_press(latches, action, event, policy);
            &&& cleared.len() == latches.len()
            &&& cleared[j] != latches[j] ==> cleared[j] is None && gone == latches[j]
            &&& gone is None ==> (cleared[j] matches Some(l) ==> l.event.pos != event.pos)
            &&& start <==> !(gone matches Some(l) && policy.release_mode.double_tap && (l.state
                is Armed || l.state is Bound))
            &&& gone matches Some(l) ==> l.event.pos == event.pos
        }),
{
    lemma_first(latches, 0, at_pos(event.pos));
    match found(latches, action, event) {
        Some(i) => {
            assert(at_pos(event.pos)(latches[i]->0));
        },
        None => {
            if let Some(l) = latches[j] {
                assert(at_pos(event.pos)(l) == (l.event.pos == event.pos));
            }
        },
    }
}

proof fn lemma_ended(latches: Seq<Option<Latch>>, n: int, step: spec_fn(Latch) -> Option<Latch>)
    requires
        0 <= n <= latches.len(),
    ensures
        ended(latches, n, step).len() <= n,
        forall|k: int|
            0 <= k < ended(latches, n, step).len() ==> {
                let l = #[trigger] ended(latches, n, step)[k];
                step(l) is None && exists|i: int| 0 <= i < n && #[trigger] latches[i] == Some(l)
            },
        forall|i: int|
            0 <= i < n && (#[trigger] latches[i] matches Some(l) && step(l) is None) ==> ended(
                latches,
                n,
                step,
            ).contains(latches[i]->0),
    decreases n,
{
    if n > 0 {
        lemma_ended(latches, n - 1, step);
        let below = ended(latches, n - 1, step);
        let all = ended(latches, n, step);
        assert forall|k: int| 0 <= k < all.len() implies {
            let l = #[trigger] all[k];
            step(l) is None && exists|i: int| 0 <= i < n && #[trigger] latches[i] == Some(l)
        } by {
            if k < below.len() {
                assert(all[k] == below[k]);
            } else {
                assert(latches[n - 1] == Some(all[k]));
            }
        }
        assert forall|i: int|
            0 <= i < n && (#[trigger] latches[i] matches Some(l) && step(l) is None) implies all
            .contains(latches[i]->0) by {
            if i == n - 1 {
                assert(all[below.len() as int] == latches[i]->0);
            } else {
                let k = choose|k: int| 0 <= k < below.len() && below[k] == latches[i]->0;
                assert(all[k] == latches[i]->0);
            }
        }
    }
}

/// A step on all latches hands out exactly those that it ends, and frees exactly their slots.
pub proof fn law_a_step_hands_out_what_it_ends(
    latches: Seq<Option<Latch>>,
    step: spec_fn(Latch) -> Option<Latch>,
    l: Latch,
)
    ensures
        ended(latches, latches.len() as int, step).contains(l) <==> latches.contains(Some(l))
            && step(l) is None,
        slots_after(latches, step).len() == latches.len(),
        forall|i: int|
            0 <= i < latches.len() ==> (#[trigger] slots_after(latches, step)[i] is None
                <==> latches[i] is None || step(latches[i]->0) is None),
{
    lemma_ended(latches, latches.len() as int, step);
    let all = ended(latches, latches.len() as int, step);
    if all.contains(l) {
        let k = choose|k: int| 0 <= k < all.len() && all[k] == l;
        assert(all[k] == l);
    }
    if latches.contains(Some(l)) && step(l) is None {
        let i = choose|i: int| 0 <= i < latches.len() && latches[i] == Some(l);
        assert(latches[i] == Some(l));
    }
}

/// Modifiers never consume a latch: they are the modifier actions, and the eight keys of
/// usages 0xE0 to 0xE7 and no other key.
pub proof fn law_modifiers_are_eight_keys(action: Action)
    ensures
        is_modifier(action) <==> match action {
            Action::Modifier(_) => true,
            Action::Key(KeyCode::Hid(key)) => key.0 & 0xf8 == 0xe0,
            _ => false,
        },
{
    if let Action::Key(KeyCode::Hid(key)) = action {
        let n = key.0;
        assert((n & 0xf8 == 0xe0) == (0xe0 <= n && n <= 0xe7)) by (bit_vector);
    }
}

/// A report settles the keyboard where it would differ from the last one, whichever of the two
/// is the newer.
pub proof fn law_a_settling_report_is_for_a_change(
    modifier: u8,
    keycodes: [HidKeyCode; 6],
    last_modifier: u8,
    last_keycodes: [HidKeyCode; 6],
    i: int,
    r: bool,
    back: bool,
)
    requires
        settle_report.ensures((modifier, &keycodes, last_modifier, &last_keycodes), r),
        settle_report.ensures((last_modifier, &last_keycodes, modifier, &keycodes), back),
    ensures
        r == back,
        modifier != last_modifier ==> r,
        0 <= i < 6 && keycodes@[i] != last_keycodes@[i] ==> r,
        modifier == last_modifier && keycodes@ == last_keycodes@ ==> !r,
{
}

/// Latches are seen where one of them is, and together exactly where one of the two groups is.
pub proof fn law_latches_are_seen_where_one_is(
    a: Vec<Latch>,
    b: Vec<Latch>,
    both: Vec<Latch>,
    r: bool,
    s: bool,
    t: bool,
)
    requires
        any_visible.ensures((&a,), r),
        any_visible.ensures((&b,), s),
        any_visible.ensures((&both,), t),
        both@ == a@ + b@,
    ensures
        t <==> r || s,
        a@.len() == 0 ==> !r,
        a@.len() == 1 ==> r == a@[0].visible,
{
    if r {
        let i = choose|i: int| 0 <= i < a@.len() && #[trigger] a@[i].visible;
        assert(both@[i].visible);
    }
    if s {
        let i = choose|i: int| 0 <= i < b@.len() && #[trigger] b@[i].visible;
        assert(both@[a@.len() + i].visible);
    }
    if t {
        let i = choose|i: int| 0 <= i < both@.len() && #[trigger] both@[i].visible;
        if i < a@.len() {
            assert(a@[i].visible);
        } else {
            assert(b@[i - a@.len()].visible);
        }
    }
    if a@.len() == 1 && a@[0].visible {
        assert(r);
    }
}

} // verus!
