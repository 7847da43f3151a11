//! One-shot keys: modifiers and layers that last for the next key.

use vstd::prelude::*;
use crate::time::{Duration, Instant};
use crate::types::ModifierCombination;

verus! {

/// State machine for one shot keys.
#[derive(Clone, Copy, Debug)]
pub enum OneShotState<T> {
    /// First one shot key press.
    Initial(T),
    /// The one shot key was tapped: the next key press uses it, or it times out at
    /// the deadline. `None` while the one shot key is held down again; releasing
    /// it sets a new deadline.
    Single(T, Option<Instant>),
    /// Another key was pressed before one shot key was released, treat as a normal
    /// modifier/layer.
    Held(T),
    /// One shot inactive.
    Inactive,
}

impl<T> Default for OneShotState<T> {
    fn default() -> (r: Self)
        ensures
            r == OneShotState::<T>::Inactive,
    {
        OneShotState::Inactive
    }
}

impl<T> OneShotState<T> {
    pub open spec fn spec_value(self) -> Option<T> {
        match self {
            OneShotState::Initial(v) => Some(v),
            OneShotState::Single(v, _) => Some(v),
            OneShotState::Held(v) => Some(v),
            OneShotState::Inactive => None,
        }
    }

    pub open spec fn spec_deadline(self) -> Option<Instant> {
        match self {
            OneShotState::Single(_, deadline) => deadline,
            _ => None,
        }
    }

    /// Get the current one shot value if any.
    pub fn value(&self) -> (r: Option<&T>)
        ensures
            match r {
                Some(v) => self.spec_value() == Some(*v),
                None => self.spec_value() is None,
            },
    {
        match self {
            OneShotState::Initial(v) => Some(v),
            OneShotState::Single(v, _) => Some(v),
            OneShotState::Held(v) => Some(v),
            OneShotState::Inactive => None,
        }
    }

    /// Get the expiry deadline while armed (`Single`).
    pub fn deadline(&self) -> (r: Option<Instant>)
        ensures
            r == self.spec_deadline(),
    {
        match self {
            OneShotState::Single(_, deadline) => *deadline,
            _ => None,
        }
    }
}

/// What a one-shot key brings about.
#[derive(Clone, Copy, Debug)]
pub enum OneShotEffect {
    /// Send a keyboard report, with the one-shot modifiers in the given state.
    /// `pressed` says whether modifiers that wait for a key are part of it.
    Report { pressed: bool, osm: OneShotState<ModifierCombination> },
    ActivateLayer(u8),
    DeactivateLayer(u8),
}

/// The modifiers and the layer in one-shot.
#[derive(Clone, Copy, Debug)]
pub struct OneShotKeys {
    pub osm: OneShotState<ModifierCombination>,
    pub osl: OneShotState<u8>,
}

pub open spec fn joined(a: ModifierCombination, b: ModifierCombination) -> ModifierCombination {
    ModifierCombination(a.0 | b.0)
}

/// The modifiers of `a` that are none of `b`.
pub open spec fn without(a: ModifierCombination, b: ModifierCombination) -> ModifierCombination {
    ModifierCombination(a.0 & !b.0)
}

pub open spec fn includes(a: ModifierCombination, b: ModifierCombination) -> bool {
    a.0 & b.0 == b.0
}

/// The state of the modifiers after a one-shot modifier key went down. A key whose
/// modifiers wait already takes them back.
pub open spec fn osm_pressed(
    s: OneShotState<ModifierCombination>,
    new: ModifierCombination,
) -> OneShotState<ModifierCombination> {
    match s {
        OneShotState::Inactive => OneShotState::Initial(new),
        OneShotState::Initial(m) => OneShotState::Initial(joined(m, new)),
        OneShotState::Single(m, _) => if includes(m, new) {
            if without(m, new).0 == 0 {
                OneShotState::Inactive
            } else {
                OneShotState::Single(without(m, new), None)
            }
        } else {
            OneShotState::Single(joined(m, new), None)
        },
        OneShotState::Held(m) => OneShotState::Held(joined(m, new)),
    }
}

/// Whether a press takes modifiers back.
pub open spec fn takes_back(
    s: OneShotState<ModifierCombination>,
    new: ModifierCombination,
) -> bool {
    s matches OneShotState::Single(m, _) && includes(m, new)
}

/// The state of the layer after another key's event, and the layer that goes out.
pub open spec fn osl_updated(s: OneShotState<u8>, pressed: bool) -> (
    OneShotState<u8>,
    Option<u8>,
) {
    match s {
        OneShotState::Initial(l) => (OneShotState::Held(l), None),
        OneShotState::Single(l, _) => if pressed {
            (s, None)
        } else {
            (OneShotState::Inactive, Some(l))
        },
        _ => (s, None),
    }
}

/// The state of the modifiers after another key's event, and whether they were
/// used up. They are used up on the press, so that a key rolled over before this
/// one is released does not see them too.
pub open spec fn osm_updated(s: OneShotState<ModifierCombination>, pressed: bool) -> (
    OneShotState<ModifierCombination>,
    bool,
) {
    match s {
        OneShotState::Initial(m) => (OneShotState::Held(m), false),
        OneShotState::Single(_, _) => if pressed {
            (OneShotState::Inactive, true)
        } else {
            (s, false)
        },
        _ => (s, false),
    }
}

pub open spec fn later(now: Instant, timeout: Duration) -> Instant {
    Instant { ticks: (now.ticks + timeout.ticks) as u64 }
}

/// The effect of a layer that goes out, if one does.
pub open spec fn layer_out(layer: Option<u8>) -> Seq<OneShotEffect> {
    match layer {
        Some(l) => seq![OneShotEffect::DeactivateLayer(l)],
        None => Seq::empty(),
    }
}

pub open spec fn report_if(
    send: bool,
    pressed: bool,
    osm: OneShotState<ModifierCombination>,
) -> Seq<OneShotEffect> {
    if send {
        seq![OneShotEffect::Report { pressed, osm }]
    } else {
        Seq::empty()
    }
}

impl OneShotKeys {
    pub fn new() -> (r: Self)
        ensures
            r.osm == OneShotState::<ModifierCombination>::Inactive,
            r.osl == OneShotState::<u8>::Inactive,
    {
        OneShotKeys { osm: OneShotState::Inactive, osl: OneShotState::Inactive }
    }

    /// A one-shot modifier key went down or came up.
    pub fn process_action_osm(
        &mut self,
        new_modifiers: ModifierCombination,
        pressed: bool,
        activate_on_keypress: bool,
        now: Instant,
        timeout: Duration,
    ) -> (r: Vec<OneShotEffect>)
        requires
            !pressed && (old(self).osm is Initial || old(self).osm is Single) ==> now.ticks
                + timeout.ticks <= u64::MAX,
        ensures
            ({
                let before = *old(self);
                if pressed {
                    let osm = osm_pressed(before.osm, new_modifiers);
                    let back = takes_back(before.osm, new_modifiers);
                    &&& final(self).osm == osm
                    &&& final(self).osl == osl_updated(before.osl, true).0
                    &&& r@ == report_if(back, true, before.osm) + report_if(
                        back || activate_on_keypress,
                        true,
                        osm,
                    )
                } else {
                    match before.osm {
                        OneShotState::Initial(m) | OneShotState::Single(m, _) => {
                            // Armed for the next key.
                            &&& final(self).osm == OneShotState::Single(
                                m,
                                Some(later(now, timeout)),
                            )
                            &&& final(self).osl == before.osl
                            &&& r@.len() == 0
                        },
                        OneShotState::Held(m) => if includes(m, new_modifiers) {
                            let (osl, out) = osl_updated(before.osl, false);
                            &&& final(self).osm == OneShotState::<ModifierCombination>::Inactive
                            &&& final(self).osl == osl
                            &&& r@ == layer_out(out) + report_if(true, false, OneShotState::Inactive)
                        } else {
                            *final(self) == before && r@.len() == 0
                        },
                        OneShotState::Inactive => *final(self) == before && r@.len() == 0,
                    }
                }
            }),
            // A release leaves the modifiers set until they are used, unless the key was held
            // while another was used.
            !pressed && !(old(self).osm is Held) ==> final(self).osm.spec_value()
                == old(self).osm.spec_value(),
            !pressed && final(self).osm is Single ==> (final(self).osm.spec_deadline() matches Some(
                d,
            ) && d.ticks == now.ticks + timeout.ticks),
            !pressed ==> !(final(self).osm is Initial),
            // Only a press that arms a new key is silent.
            pressed ==> r@.len() <= 2 && (r@.len() == 0 <==> !activate_on_keypress && !takes_back(
                old(self).osm,
                new_modifiers,
            )),
    {
        let mut effects: Vec<OneShotEffect> = Vec::new();
        if pressed {
            let mut was_active: bool = false;
            let before = self.osm;
            match self.osm {
                OneShotState::Inactive => {
                    self.osm = OneShotState::Initial(new_modifiers);
                },
                OneShotState::Initial(m) => {
                    self.osm = OneShotState::Initial(ModifierCombination(m.0 | new_modifiers.0));
                },
                OneShotState::Single(m, _) => {
                    if m.0 & new_modifiers.0 == new_modifiers.0 {
                        was_active = true;
                        effects.push(OneShotEffect::Report { pressed: true, osm: before });
                        let left: u8 = m.0 & !new_modifiers.0;
                        if left == 0 {
                            self.osm = OneShotState::Inactive;
                        } else {
                            self.osm = OneShotState::Single(ModifierCombination(left), None);
                        }
                    } else {
                        self.osm = OneShotState::Single(
                            ModifierCombination(m.0 | new_modifiers.0),
                            None,
                        );
                    }
                },
                OneShotState::Held(m) => {
                    self.osm = OneShotState::Held(ModifierCombination(m.0 | new_modifiers.0));
                },
            }
            let out = self.update_osl(true);
            if was_active || activate_on_keypress {
                effects.push(OneShotEffect::Report { pressed: true, osm: self.osm });
            }
            assert(effects@ =~= report_if(was_active, true, before) + report_if(
                was_active || activate_on_keypress,
                true,
                self.osm,
            ));
        } else {
            match self.osm {
                OneShotState::Initial(m) => {
                    self.osm = OneShotState::Single(m, Some(now.after(timeout)));
                },
                OneShotState::Single(m, _) => {
                    self.osm = OneShotState::Single(m, Some(now.after(timeout)));
                },
                OneShotState::Held(m) => {
                    if m.0 & new_modifiers.0 == new_modifiers.0 {
                        let out = self.update_osl(false);
                        if let Some(l) = out {
                            effects.push(OneShotEffect::DeactivateLayer(l));
                        }
                        self.osm = OneShotState::Inactive;
                        effects.push(OneShotEffect::Report { pressed: false, osm: self.osm });
                        assert(effects@ =~= layer_out(out) + report_if(
                            true,
                            false,
                            OneShotState::Inactive,
                        ));
                    }
                },
                OneShotState::Inactive => {},
            }
        }
        effects
    }

    /// A one-shot layer key went down or came up.
    pub fn process_action_osl(
        &mut self,
        layer_num: u8,
        pressed: bool,
        now: Instant,
        timeout: Duration,
    ) -> (r: Vec<OneShotEffect>)
        requires
            !pressed && (old(self).osl is Initial || old(self).osl is Single) ==> now.ticks
                + timeout.ticks <= u64::MAX,
        ensures
            final(self).osm == old(self).osm,
            ({
                let before = old(self).osl;
                if pressed {
                    &&& final(self).osl == match before {
                        OneShotState::Inactive | OneShotState::Initial(_) => OneShotState::Initial(
                            layer_num,
                        ),
                        OneShotState::Single(_, _) => OneShotState::Single(layer_num, None),
                        OneShotState::Held(_) => OneShotState::Held(layer_num),
                    }
                    &&& r@ == layer_out(before.spec_value()) + seq![
                        OneShotEffect::ActivateLayer(layer_num),
                    ]
                } else {
                    match before {
                        OneShotState::Initial(l) | OneShotState::Single(l, _) => {
                            &&& final(self).osl == OneShotState::Single(
                                l,
                                Some(later(now, timeout)),
                            )
                            &&& r@.len() == 0
                        },
                        OneShotState::Held(l) => {
                            &&& final(self).osl == OneShotState::<u8>::Inactive
                            &&& r@ == layer_out(Some(l))
                        },
                        OneShotState::Inactive => final(self).osl == before && r@.len() == 0,
                    }
                }
            }),
            // The key's own layer is on after its press, and alone: one that was on goes out
            // before it.
            pressed ==> final(self).osl.spec_value() == Some(layer_num)
                && final(self).osl.spec_deadline() is None && r@.last() == OneShotEffect::ActivateLayer(layer_num),
            pressed ==> (old(self).osl.spec_value() matches Some(l) ==> r@.len() == 2 && r@[0]
                == OneShotEffect::DeactivateLayer(l)),
            pressed ==> (old(self).osl is Held <==> final(self).osl is Held),
            // A release leaves a layer on that waits for a key, with a deadline.
            !pressed && old(self).osl.spec_value() is Some ==> (if r@.len() == 0 {
                &&& final(self).osl.spec_value() == old(self).osl.spec_value()
                &&& final(self).osl.spec_deadline() matches Some(d)
                &&& d.ticks == now.ticks + timeout.ticks
            } else {
                &&& old(self).osl is Held
                &&& final(self).osl.spec_value() is None
            }),
    {
        let mut effects: Vec<OneShotEffect> = Vec::new();
        if pressed {
            let ghost before = self.osl;
            if let Some(l) = self.osl.value() {
                effects.push(OneShotEffect::DeactivateLayer(*l));
            }
            self.osl = match self.osl {
                OneShotState::Inactive => OneShotState::Initial(layer_num),
                OneShotState::Initial(_) => OneShotState::Initial(layer_num),
                OneShotState::Single(_, _) => OneShotState::Single(layer_num, None),
                OneShotState::Held(_) => OneShotState::Held(layer_num),
            };
            effects.push(OneShotEffect::ActivateLayer(layer_num));
            assert(effects@ =~= layer_out(before.spec_value()) + seq![
                OneShotEffect::ActivateLayer(layer_num),
            ]);
        } else {
            match self.osl {
                OneShotState::Initial(l) => {
                    self.osl = OneShotState::Single(l, Some(now.after(timeout)));
                },
                OneShotState::Single(l, _) => {
                    self.osl = OneShotState::Single(l, Some(now.after(timeout)));
                },
                OneShotState::Held(l) => {
                    self.osl = OneShotState::Inactive;
                    effects.push(OneShotEffect::DeactivateLayer(l));
                    assert(effects@ =~= layer_out(Some(l)));
                },
                OneShotState::Inactive => {},
            }
        }
        effects
    }

    /// Update OSM state based on another key's event. Returns `true` if the OSM was
    /// consumed.
    pub fn update_osm(&mut self, pressed: bool) -> (r: bool)
        ensures
            final(self).osl == old(self).osl,
            (final(self).osm, r) == osm_updated(old(self).osm, pressed),
    {
        match self.osm {
            OneShotState::Initial(m) => {
                self.osm = OneShotState::Held(m);
                false
            },
            OneShotState::Single(_, _) => {
                if pressed {
                    self.osm = OneShotState::Inactive;
                    true
                } else {
                    false
                }
            },
            _ => false,
        }
    }

    /// Update OSL state based on another key's event. The layer to deactivate, if
    /// any.
    pub fn update_osl(&mut self, pressed: bool) -> (r: Option<u8>)
        ensures
            final(self).osm == old(self).osm,
            (final(self).osl, r) == osl_updated(old(self).osl, pressed),
    {
        match self.osl {
            OneShotState::Initial(l) => {
                self.osl = OneShotState::Held(l);
                None
            },
            OneShotState::Single(l, _) => {
                if pressed {
                    None
                } else {
                    self.osl = OneShotState::Inactive;
                    Some(l)
                }
            },
            _ => None,
        }
    }

    /// Fire expired one-shot deadlines: disarm timed-out one-shot modifiers and
    /// deactivate the timed-out one-shot layer. A call before expiry does nothing.
    pub fn fire_oneshot_timeout(&mut self, now: Instant, activate_on_keypress: bool) -> (r: Vec<
        OneShotEffect,
    >)
        ensures
            ({
                let before = *old(self);
                let osm_due = before.osm.spec_deadline() matches Some(d) && d.ticks <= now.ticks;
                let osl_due = before.osl.spec_deadline() matches Some(d) && d.ticks <= now.ticks;
                &&& final(self).osm == if osm_due {
                    OneShotState::Inactive
                } else {
                    before.osm
                }
                &&& final(self).osl == if osl_due {
                    OneShotState::Inactive
                } else {
                    before.osl
                }
                &&& r@ == report_if(osm_due && activate_on_keypress, false, OneShotState::Inactive)
                    + layer_out(
                    if osl_due {
                        before.osl.spec_value()
                    } else {
                        None
                    },
                )
            }),
    {
        let mut effects: Vec<OneShotEffect> = Vec::new();
        let ghost before = *self;
        let mut osm_due: bool = false;
        if let OneShotState::Single(_, Some(d)) = self.osm {
            if d.ticks <= now.ticks {
                osm_due = true;
                self.osm = OneShotState::Inactive;
                if activate_on_keypress {
                    effects.push(OneShotEffect::Report { pressed: false, osm: self.osm });
                }
            }
        }
        let mut out: Option<u8> = None;
        if let OneShotState::Single(l, Some(d)) = self.osl {
            if d.ticks <= now.ticks {
                out = Some(l);
                effects.push(OneShotEffect::DeactivateLayer(l));
                self.osl = OneShotState::Inactive;
            }
        }
        assert(effects@ =~= report_if(
            osm_due && activate_on_keypress,
            false,
            OneShotState::Inactive,
        ) + layer_out(out));
        effects
    }
}

// ---------------------------------------------------------------------------
// Laws
// ---------------------------------------------------------------------------

/// One-shot modifiers serve one key: the press that uses them up leaves none for
/// the next.
pub proof fn law_one_shot_modifiers_serve_one_key(
    m: ModifierCombination,
    deadline: Option<Instant>,
)
    ensures
        ({
            let armed = OneShotState::Single(m, deadline);
            let (after, used) = osm_updated(armed, true);
            &&& used
            &&& after == OneShotState::<ModifierCombination>::Inactive
            &&& osm_updated(after, true) == (OneShotState::<ModifierCombination>::Inactive, false)
        }),
{
}

/// Tapping the same one-shot modifier again takes it back.
pub proof fn law_a_second_tap_takes_modifiers_back(
    m: ModifierCombination,
    deadline: Option<Instant>,
)
    ensures
        osm_pressed(OneShotState::Single(m, deadline), m) == OneShotState::<
            ModifierCombination,
        >::Inactive,
{
    let b = m.0;
    assert(b & b == b && b & !b == 0) by (bit_vector);
}

/// What joining, removing and including modifiers does to each of the eight bits.
proof fn lemma_modifier_bits(a: u8, b: u8, i: u8)
    requires
        i < 8,
    ensures
        ((a | b) >> i) & 1 == 1 <==> (a >> i) & 1 == 1 || (b >> i) & 1 == 1,
        ((a & !b) >> i) & 1 == 1 <==> (a >> i) & 1 == 1 && (b >> i) & 1 != 1,
        a & b == b && (b >> i) & 1 == 1 ==> (a >> i) & 1 == 1,
        a & !b == 0 ==> ((a >> i) & 1 == 1 ==> (b >> i) & 1 == 1),
{
    assert((((a | b) >> i) & 1 == 1 <==> (a >> i) & 1 == 1 || (b >> i) & 1 == 1) && (((a & !b)
        >> i) & 1 == 1 <==> (a >> i) & 1 == 1 && (b >> i) & 1 != 1) && (a & b == b && (b >> i) & 1
        == 1 ==> (a >> i) & 1 == 1) && (a & !b == 0 ==> ((a >> i) & 1 == 1 ==> (b >> i) & 1 == 1)))
        by (bit_vector)
        requires
            i < 8,
    ;
}

/// Modifiers each of whose bits is set in others are included in them.
proof fn lemma_included_by_bits(a: u8, b: u8)
    requires
        forall|i: u8| i < 8 && #[trigger] (b >> i) & 1 == 1 ==> (a >> i) & 1 == 1,
    ensures
        a & b == b,
        (forall|i: u8| i < 8 && #[trigger] (a >> i) & 1 == 1 ==> (b >> i) & 1 == 1) ==> a == b && a
            & !b == 0,
{
    assert((b >> 0u8) & 1 == 1 ==> (a >> 0u8) & 1 == 1);
    assert((b >> 1u8) & 1 == 1 ==> (a >> 1u8) & 1 == 1);
    assert((b >> 2u8) & 1 == 1 ==> (a >> 2u8) & 1 == 1);
    assert((b >> 3u8) & 1 == 1 ==> (a >> 3u8) & 1 == 1);
    assert((b >> 4u8) & 1 == 1 ==> (a >> 4u8) & 1 == 1);
    assert((b >> 5u8) & 1 == 1 ==> (a >> 5u8) & 1 == 1);
    assert((b >> 6u8) & 1 == 1 ==> (a >> 6u8) & 1 == 1);
    assert((b >> 7u8) & 1 == 1 ==> (a >> 7u8) & 1 == 1);
    assert(a & b == b && (((a >> 0u8) & 1 == 1 ==> (b >> 0u8) & 1 == 1) && ((a >> 1u8) & 1 == 1
        ==> (b >> 1u8) & 1 == 1) && ((a >> 2u8) & 1 == 1 ==> (b >> 2u8) & 1 == 1) && ((a >> 3u8) & 1
        == 1 ==> (b >> 3u8) & 1 == 1) && ((a >> 4u8) & 1 == 1 ==> (b >> 4u8) & 1 == 1) && ((a
        >> 5u8) & 1 == 1 ==> (b >> 5u8) & 1 == 1) && ((a >> 6u8) & 1 == 1 ==> (b >> 6u8) & 1 == 1)
        && ((a >> 7u8) & 1 == 1 ==> (b >> 7u8) & 1 == 1) ==> a == b && a & !b == 0)) by (bit_vector)
        requires
            (b >> 0u8) & 1 == 1 ==> (a >> 0u8) & 1 == 1,
            (b >> 1u8) & 1 == 1 ==> (a >> 1u8) & 1 == 1,
            (b >> 2u8) & 1 == 1 ==> (a >> 2u8) & 1 == 1,
            (b >> 3u8) & 1 == 1 ==> (a >> 3u8) & 1 == 1,
            (b >> 4u8) & 1 == 1 ==> (a >> 4u8) & 1 == 1,
            (b >> 5u8) & 1 == 1 ==> (a >> 5u8) & 1 == 1,
            (b >> 6u8) & 1 == 1 ==> (a >> 6u8) & 1 == 1,
            (b >> 7u8) & 1 == 1 ==> (a >> 7u8) & 1 == 1,
    ;
    if forall|i: u8| i < 8 && #[trigger] (a >> i) & 1 == 1 ==> (b >> i) & 1 == 1 {
        assert((a >> 0u8) & 1 == 1 ==> (b >> 0u8) & 1 == 1);
        assert((a >> 1u8) & 1 == 1 ==> (b >> 1u8) & 1 == 1);
        assert((a >> 2u8) & 1 == 1 ==> (b >> 2u8) & 1 == 1);
        assert((a >> 3u8) & 1 == 1 ==> (b >> 3u8) & 1 == 1);
        assert((a >> 4u8) & 1 == 1 ==> (b >> 4u8) & 1 == 1);
        assert((a >> 5u8) & 1 == 1 ==> (b >> 5u8) & 1 == 1);
        assert((a >> 6u8) & 1 == 1 ==> (b >> 6u8) & 1 == 1);
        assert((a >> 7u8) & 1 == 1 ==> (b >> 7u8) & 1 == 1);
    }
}

/// A one-shot modifier press that brings a modifier which does not wait yet loses none of
/// those that wait: after it, exactly the modifiers that waited before and those of the key
/// are set, however the modifiers wait.
pub proof fn law_a_press_loses_no_waiting_modifiers(
    s: OneShotState<ModifierCombination>,
    new: ModifierCombination,
    j: u8,
    i: u8,
)
    requires
        i < 8,
        j < 8,
        s is Single ==> (new.0 >> j) & 1 == 1 && (s->Single_0.0 >> j) & 1 != 1,
    ensures
        !takes_back(s, new),
        ({
            let after = osm_pressed(s, new);
            match s {
                OneShotState::Inactive => after == OneShotState::Initial(new),
                OneShotState::Initial(m) => after matches OneShotState::Initial(n) && ((n.0 >> i)
                    & 1 == 1 <==> (m.0 >> i) & 1 == 1 || (new.0 >> i) & 1 == 1),
                OneShotState::Single(m, _) => after matches OneShotState::Single(n, None) && ((n.0
                    >> i) & 1 == 1 <==> (m.0 >> i) & 1 == 1 || (new.0 >> i) & 1 == 1),
                OneShotState::Held(m) => after matches OneShotState::Held(n) && ((n.0 >> i) & 1 == 1
                    <==> (m.0 >> i) & 1 == 1 || (new.0 >> i) & 1 == 1),
            }
        }),
{
    match s {
        OneShotState::Inactive => {},
        OneShotState::Initial(m) => lemma_modifier_bits(m.0, new.0, i),
        OneShotState::Single(m, _) => {
            lemma_modifier_bits(m.0, new.0, i);
            lemma_modifier_bits(m.0, new.0, j);
        },
        OneShotState::Held(m) => lemma_modifier_bits(m.0, new.0, i),
    }
}

/// A one-shot modifier press whose modifiers all wait takes exactly them back: the others go
/// on waiting, and nothing waits where there are no others.
pub proof fn law_a_press_takes_back_its_own_modifiers(
    m: ModifierCombination,
    deadline: Option<Instant>,
    new: ModifierCombination,
    i: u8,
)
    requires
        i < 8,
        forall|j: u8| j < 8 && #[trigger] (new.0 >> j) & 1 == 1 ==> (m.0 >> j) & 1 == 1,
    ensures
        takes_back(OneShotState::Single(m, deadline), new),
        match osm_pressed(OneShotState::Single(m, deadline), new) {
            OneShotState::Single(left, None) => left.0 != 0 && ((left.0 >> i) & 1 == 1 <==> (m.0
                >> i) & 1 == 1 && (new.0 >> i) & 1 != 1),
            OneShotState::Inactive => (m.0 >> i) & 1 == 1 ==> (new.0 >> i) & 1 == 1,
            _ => false,
        },
{
    lemma_included_by_bits(m.0, new.0);
    lemma_modifier_bits(m.0, new.0, i);
}

/// Only modifiers that wait for a key are used up, and only by its press; the others stay as
/// they are set. A key that goes down or comes up while the one-shot key is down makes it an
/// ordinary one.
pub proof fn law_only_a_press_uses_modifiers_up(s: OneShotState<ModifierCombination>, pressed: bool)
    ensures
        ({
            let (after, used) = osm_updated(s, pressed);
            &&& used <==> s is Single && pressed
            &&& used ==> after is Inactive
            &&& !used ==> after.spec_value() == s.spec_value() && after.spec_deadline()
                == s.spec_deadline()
            &&& s is Initial ==> after is Held
            &&& !used && !(s is Initial) ==> after == s
        }),
{
}

/// A layer goes out once, with the release of the key it waited for, and stays on until then.
/// A key that goes down or comes up while the one-shot key is down makes it an ordinary one.
pub proof fn law_a_layer_goes_out_with_a_release(s: OneShotState<u8>, pressed: bool)
    ensures
        ({
            let (after, out) = osl_updated(s, pressed);
            &&& out is Some <==> s is Single && !pressed
            &&& out is Some ==> out == s.spec_value() && after is Inactive
            &&& out is None ==> after.spec_value() == s.spec_value() && after.spec_deadline()
                == s.spec_deadline()
            &&& s is Initial ==> after is Held
            &&& out is None && !(s is Initial) ==> after == s
        }),
{
}

/// A deadline lies the timeout after the moment it is set, so that it has passed from then on
/// and not before.
pub proof fn law_a_deadline_is_a_timeout_away(now: Instant, timeout: Duration)
    requires
        now.ticks + timeout.ticks <= u64::MAX,
    ensures
        later(now, timeout).ticks - now.ticks == timeout.ticks,
{
}

/// A report is sent exactly where it is asked for, with the modifiers that it is asked for.
pub proof fn law_a_report_is_sent_where_it_is_asked_for(
    send: bool,
    pressed: bool,
    osm: OneShotState<ModifierCombination>,
)
    ensures
        report_if(send, pressed, osm).len() == (if send {
            1int
        } else {
            0
        }),
        send ==> report_if(send, pressed, osm)[0] == (OneShotEffect::Report { pressed, osm }),
{
}

} // verus!
