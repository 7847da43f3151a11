//! Sticky key configuration.
//!
//! A sticky key postpones the release of the action it wraps until the next
//! input, so a tap of `SK(LShift)` shifts the key that follows it. This module
//! holds the per-key configuration; the state machine is in
//! [`crate::keyboard::sticky`].

use vstd::prelude::*;
use crate::types::HidKeyCode;

verus! {

/// Keycodes that a profile can ignore.
pub const STICKY_IGNORE_MAX: usize = 8;

/// Profile index reserved for `OSL`. It resolves to the default profile with
/// `release_on_next_press` forced on: a layer has to be restored on the next key's
/// press, otherwise the key after that one may still resolve on it.
pub const STICKY_PROFILE_LAYER: u8 = 254;

/// When the host gets to see the effect, and which layer transitions release it.
/// One bit each, the lowest first.
#[derive(Clone, Copy, Debug, PartialEq, Eq, Structural)]
pub struct StickyFlags(pub u8);

/// Whether bit `i` of a byte is set.
pub open spec fn bit(byte: u8, i: u8) -> bool {
    (byte >> i) & 1u8 == 1u8
}

fn get_bit(byte: u8, i: u8) -> (r: bool)
    requires
        i < 8,
    ensures
        r == bit(byte, i),
{
    (byte >> i) & 1u8 == 1u8
}

fn put_bit(byte: u8, i: u8, on: bool) -> (r: u8)
    requires
        i < 8,
    ensures
        bit(r, i) == on,
        forall|j: u8| j < 8 && j != i ==> #[trigger] bit(r, j) == bit(byte, j),
{
    let mask: u8 = 1u8 << i;
    let r: u8 = if on {
        byte | mask
    } else {
        byte & !mask
    };
    proof {
        assert(((byte | mask) >> i) & 1u8 == 1u8) by (bit_vector)
            requires
                mask == 1u8 << i,
                i < 8,
        ;
        assert(((byte & !mask) >> i) & 1u8 == 0u8) by (bit_vector)
            requires
                mask == 1u8 << i,
                i < 8,
        ;
        assert forall|j: u8| j < 8 && j != i implies #[trigger] bit(r, j) == bit(byte, j) by {
            assert((((byte | mask) >> j) & 1u8) == ((byte >> j) & 1u8) && (((byte & !mask) >> j)
                & 1u8) == ((byte >> j) & 1u8)) by (bit_vector)
                requires
                    mask == 1u8 << i,
                    i < 8,
                    j < 8,
                    j != i,
            ;
        }
    }
    r
}

impl StickyFlags {
    /// Send the effect to the host as soon as the sticky key is pressed, rather
    /// than holding it back until the next input.
    pub open spec fn spec_activate_on_press(self) -> bool {
        bit(self.0, 0)
    }

    /// Release on the next input's press edge instead of letting the effect
    /// disappear with that key's own release report.
    pub open spec fn spec_release_on_next_press(self) -> bool {
        bit(self.0, 1)
    }

    /// Release when a layer is activated.
    pub open spec fn spec_release_on_layer_enter(self) -> bool {
        bit(self.0, 2)
    }

    /// Release when a layer is deactivated.
    pub open spec fn spec_release_on_layer_exit(self) -> bool {
        bit(self.0, 3)
    }

    /// No flag set.
    pub fn new() -> (r: Self)
        ensures
            r.0 == 0,
            !r.spec_activate_on_press(),
            !r.spec_release_on_next_press(),
            !r.spec_release_on_layer_enter(),
            !r.spec_release_on_layer_exit(),
    {
        assert(forall|i: u8| i < 8 ==> (0u8 >> i) & 1u8 == 0u8) by (bit_vector);
        StickyFlags(0)
    }

    pub fn activate_on_press(self) -> (r: bool)
        ensures
            r == self.spec_activate_on_press(),
    {
        get_bit(self.0, 0)
    }

    pub fn release_on_next_press(self) -> (r: bool)
        ensures
            r == self.spec_release_on_next_press(),
    {
        get_bit(self.0, 1)
    }

    pub fn release_on_layer_enter(self) -> (r: bool)
        ensures
            r == self.spec_release_on_layer_enter(),
    {
        get_bit(self.0, 2)
    }

    pub fn release_on_layer_exit(self) -> (r: bool)
        ensures
            r == self.spec_release_on_layer_exit(),
    {
        get_bit(self.0, 3)
    }

    pub fn with_activate_on_press(self, on: bool) -> (r: Self)
        ensures
            r.spec_activate_on_press() == on,
            forall|j: u8| j < 8 && j != 0 ==> #[trigger] bit(r.0, j) == bit(self.0, j),
    {
        StickyFlags(put_bit(self.0, 0, on))
    }

    pub fn with_release_on_next_press(self, on: bool) -> (r: Self)
        ensures
            r.spec_release_on_next_press() == on,
            forall|j: u8| j < 8 && j != 1 ==> #[trigger] bit(r.0, j) == bit(self.0, j),
    {
        StickyFlags(put_bit(self.0, 1, on))
    }

    pub fn with_release_on_layer_enter(self, on: bool) -> (r: Self)
        ensures
            r.spec_release_on_layer_enter() == on,
            forall|j: u8| j < 8 && j != 2 ==> #[trigger] bit(r.0, j) == bit(self.0, j),
    {
        StickyFlags(put_bit(self.0, 2, on))
    }

    pub fn with_release_on_layer_exit(self, on: bool) -> (r: Self)
        ensures
            r.spec_release_on_layer_exit() == on,
            forall|j: u8| j < 8 && j != 3 ==> #[trigger] bit(r.0, j) == bit(self.0, j),
    {
        StickyFlags(put_bit(self.0, 3, on))
    }
}

/// Keycodes in a `heapless::Vec` of [`STICKY_IGNORE_MAX`] entries.
#[verifier::external_body]
#[derive(Debug)]
pub struct IgnoreList {
    inner: heapless::Vec<HidKeyCode, STICKY_IGNORE_MAX>,
}

/// The keycodes of a list.
pub uninterp spec fn ignored_keys(list: IgnoreList) -> Seq<HidKeyCode>;

/// `heapless::Vec::new`: no keycodes.
#[verifier::external_body]
fn ignore_nothing() -> (r: IgnoreList)
    ensures
        ignored_keys(r) == Seq::<HidKeyCode>::empty(),
{
    IgnoreList { inner: heapless::Vec::new() }
}

/// `heapless::Vec::push`: one more at the end, or an error and no change where the
/// capacity is used up.
#[verifier::external_body]
fn ignore_push(list: &mut IgnoreList, key: HidKeyCode) -> (r: Result<(), ()>)
    ensures
        match r {
            Ok(()) => ignored_keys(*old(list)).len() < STICKY_IGNORE_MAX && ignored_keys(
                *final(list),
            ) == ignored_keys(*old(list)).push(key),
            Err(()) => ignored_keys(*old(list)).len() >= STICKY_IGNORE_MAX && ignored_keys(
                *final(list),
            ) == ignored_keys(*old(list)),
        },
{
    match list.inner.push(key) {
        Ok(()) => Ok(()),
        Err(_) => Err(()),
    }
}

/// `heapless::Vec::as_slice`: the keycodes.
#[verifier::external_body]
fn ignore_as_slice(list: &IgnoreList) -> (r: &[HidKeyCode])
    ensures
        r@ == ignored_keys(*list),
{
    list.inner.as_slice()
}

impl View for IgnoreList {
    type V = Seq<HidKeyCode>;

    open spec fn view(&self) -> Seq<HidKeyCode> {
        ignored_keys(*self)
    }
}

impl IgnoreList {
    pub fn new() -> (r: Self)
        ensures
            r@ == Seq::<HidKeyCode>::empty(),
    {
        ignore_nothing()
    }

    /// One more keycode, unless the list is full.
    pub fn push(&mut self, key: HidKeyCode) -> (r: Result<(), ()>)
        ensures
            r is Ok <==> old(self)@.len() < STICKY_IGNORE_MAX,
            final(self)@ == if r is Ok {
                old(self)@.push(key)
            } else {
                old(self)@
            },
    {
        ignore_push(self, key)
    }

    pub fn contains(&self, key: HidKeyCode) -> (r: bool)
        ensures
            r == self@.contains(key),
    {
        let keys = ignore_as_slice(self);
        let mut i: usize = 0;
        while i < keys.len()
            invariant
                keys@ == self@,
                i <= keys@.len(),
                forall|j: int| 0 <= j < i ==> self@[j] != key,
            decreases keys@.len() - i,
        {
            if keys[i] == key {
                return true;
            }
            i = i + 1;
        }
        false
    }
}

/// One sticky key profile.
#[derive(Debug)]
pub struct StickyProfile {
    /// How long the effect survives after the key comes up. 0 means no timeout.
    pub timeout_ms: u16,
    /// Keycodes that don't count as "the next input". Hitting one of these also
    /// refills the timeout, which is what makes Alt+Tab style cycling work.
    pub ignore: IgnoreList,
    pub flags: StickyFlags,
}

impl Default for StickyProfile {
    fn default() -> (r: Self)
        ensures
            r.timeout_ms == 1000,
            r.ignore@ == Seq::<HidKeyCode>::empty(),
            r.flags.0 == 0,
    {
        StickyProfile { timeout_ms: 1000, ignore: IgnoreList::new(), flags: StickyFlags::new() }
    }
}

/// Profiles by their index, and the default one for every other index.
pub struct StickyProfiles {
    pub table: Vec<StickyProfile>,
    pub fallback: StickyProfile,
}

/// What a sticky key goes by.
pub struct StickyRule {
    pub timeout_ms: u16,
    pub ignore: Seq<HidKeyCode>,
    pub activate_on_press: bool,
    pub release_on_next_press: bool,
    pub release_on_layer_enter: bool,
    pub release_on_layer_exit: bool,
}

pub open spec fn rule_of(p: StickyProfile) -> StickyRule {
    StickyRule {
        timeout_ms: p.timeout_ms,
        ignore: p.ignore@,
        activate_on_press: p.flags.spec_activate_on_press(),
        release_on_next_press: p.flags.spec_release_on_next_press(),
        release_on_layer_enter: p.flags.spec_release_on_layer_enter(),
        release_on_layer_exit: p.flags.spec_release_on_layer_exit(),
    }
}

impl StickyProfiles {
    /// The rule of a profile index.
    pub open spec fn rule(&self, index: u8) -> StickyRule {
        if index == STICKY_PROFILE_LAYER {
            StickyRule { release_on_next_press: true, ..rule_of(self.fallback) }
        } else if index < self.table@.len() {
            rule_of(self.table@[index as int])
        } else {
            rule_of(self.fallback)
        }
    }

    /// The profile of an index, and its flags.
    pub fn sticky_profile(&self, index: u8) -> (r: (&StickyProfile, StickyFlags))
        ensures
            ({
                let rule = self.rule(index);
                &&& r.0.timeout_ms == rule.timeout_ms
                &&& r.0.ignore@ == rule.ignore
                &&& r.1.spec_activate_on_press() == rule.activate_on_press
                &&& r.1.spec_release_on_next_press() == rule.release_on_next_press
                &&& r.1.spec_release_on_layer_enter() == rule.release_on_layer_enter
                &&& r.1.spec_release_on_layer_exit() == rule.release_on_layer_exit
            }),
    {
        if index == STICKY_PROFILE_LAYER {
            (&self.fallback, self.fallback.flags.with_release_on_next_press(true))
        } else if (index as usize) < self.table.len() {
            let p = &self.table[index as usize];
            (p, p.flags)
        } else {
            (&self.fallback, self.fallback.flags)
        }
    }
}

// ---------------------------------------------------------------------------
// Laws
// ---------------------------------------------------------------------------

/// The four flags are the four lowest bits of the byte, the lowest first.
pub proof fn law_the_flags_are_the_lowest_bits(flags: StickyFlags)
    ensures
        flags.spec_activate_on_press() <==> flags.0 & 0x01 != 0,
        flags.spec_release_on_next_press() <==> flags.0 & 0x02 != 0,
        flags.spec_release_on_layer_enter() <==> flags.0 & 0x04 != 0,
        flags.spec_release_on_layer_exit() <==> flags.0 & 0x08 != 0,
{
    let b = flags.0;
    assert(((b >> 0u8) & 1 == 1 <==> b & 0x01 != 0) && ((b >> 1u8) & 1 == 1 <==> b & 0x02 != 0) && ((
    b >> 2u8) & 1 == 1 <==> b & 0x04 != 0) && ((b >> 3u8) & 1 == 1 <==> b & 0x08 != 0))
        by (bit_vector);
}

/// Each index of the table goes by its own profile and every other index by the default one. A
/// layer's index goes by the default one too, but for its release with the next press.
pub proof fn law_a_profile_index_goes_by_its_profile(profiles: StickyProfiles, index: u8)
    ensures
        ({
            let rule = profiles.rule(index);
            let p = if index < profiles.table@.len() && index != 254 {
                profiles.table@[index as int]
            } else {
                profiles.fallback
            };
            &&& rule.timeout_ms == p.timeout_ms
            &&& rule.ignore == p.ignore@
            &&& rule.activate_on_press <==> p.flags.0 & 0x01 != 0
            &&& rule.release_on_next_press <==> index == 254 || p.flags.0 & 0x02 != 0
            &&& rule.release_on_layer_enter <==> p.flags.0 & 0x04 != 0
            &&& rule.release_on_layer_exit <==> p.flags.0 & 0x08 != 0
        }),
{
    law_the_flags_are_the_lowest_bits(profiles.fallback.flags);
    if index < profiles.table@.len() {
        law_the_flags_are_the_lowest_bits(profiles.table@[index as int].flags);
    }
}

} // verus!
