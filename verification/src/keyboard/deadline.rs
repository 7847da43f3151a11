//! A compact deadline registry backing the keyboard task's single wait point.
//!
//! [`DeadlineSet`] holds one optional deadline per key, so every timeout source
//! has a stable, named slot. The keyboard task races [`DeadlineSet::next`], the
//! earliest armed deadline, against its event subscriber, and fires the due slots
//! when the wait times out.

use vstd::prelude::*;
use crate::time::Instant;

verus! {

/// A number of ticks that is not zero, in a `core::num::NonZeroU64`: an optional
/// one takes no more room than the number.
#[verifier::external_body]
#[derive(Copy, Debug)]
pub struct NonZeroTicks {
    inner: core::num::NonZeroU64,
}

impl Clone for NonZeroTicks {
    fn clone(&self) -> (r: Self)
        ensures
            r == *self,
    {
        *self
    }
}

/// The number that a [`NonZeroTicks`] holds.
pub uninterp spec fn ticks_held(ticks: NonZeroTicks) -> u64;

/// `core::num::NonZeroU64::new`: the number, unless it is zero.
#[verifier::external_body]
fn nonzero_new(ticks: u64) -> (r: Option<NonZeroTicks>)
    ensures
        match r {
            Some(n) => ticks != 0 && ticks_held(n) == ticks,
            None => ticks == 0,
        },
{
    match core::num::NonZeroU64::new(ticks) {
        Some(inner) => Some(NonZeroTicks { inner }),
        None => None,
    }
}

/// `core::num::NonZeroU64::get`: the number, which is not zero.
#[verifier::external_body]
fn nonzero_get(ticks: NonZeroTicks) -> (r: u64)
    ensures
        r == ticks_held(ticks),
        r != 0,
{
    ticks.inner.get()
}

/// A deadline timestamp in compact form: the instant's ticks forced non-zero, so
/// `Option<Deadline>` occupies a single word.
///
/// Tick 0 never occurs in practice: it is the boot instant, and deadlines are
/// armed as `now + duration`.
#[derive(Clone, Copy, Debug)]
pub struct Deadline(NonZeroTicks);

/// The ticks that a deadline at `at` is kept as.
pub open spec fn kept_ticks(at: Instant) -> u64 {
    if at.ticks == 0 {
        1
    } else {
        at.ticks
    }
}

impl Deadline {
    pub closed spec fn ticks(self) -> u64 {
        ticks_held(self.0)
    }

    /// Pack an instant into the compact form, clamping tick 0 to tick 1.
    pub fn new(at: Instant) -> (r: Self)
        ensures
            r.ticks() == kept_ticks(at),
    {
        let ticks: u64 = if at.ticks == 0 {
            1
        } else {
            at.ticks
        };
        let packed = nonzero_new(ticks);
        Deadline(packed.unwrap())
    }

    /// Unpack back into an instant.
    pub fn instant(self) -> (r: Instant)
        ensures
            r.ticks == self.ticks(),
            r.ticks != 0,
    {
        Instant::from_ticks(nonzero_get(self.0))
    }
}

/// Identifies one slot of a [`DeadlineSet`].
pub trait DeadlineKey: Copy {
    /// The slot this key arms, as contracts speak of it.
    spec fn spec_slot(self) -> usize;

    /// The slot this key arms; must be unique per key and less than the set's slot
    /// count.
    fn slot(self) -> (r: usize)
        ensures
            r == self.spec_slot(),
    ;
}

/// One optional deadline per key. The wait loop races [`Self::next`] against the
/// event subscriber; the fire loop expires individual slots.
pub struct DeadlineSet<K: DeadlineKey, const SLOTS: usize> {
    slots: [Option<Deadline>; SLOTS],
    _key: core::marker::PhantomData<K>,
}

/// The deadlines of a set, in ticks, by slot.
pub open spec fn armed(slot: Option<Deadline>) -> Option<u64> {
    match slot {
        Some(d) => Some(d.ticks()),
        None => None,
    }
}

/// Whether `next` is the earliest of some deadlines: one of them, none of which is
/// earlier, or none where there are none.
pub open spec fn is_earliest(slots: Seq<Option<u64>>, next: Option<u64>) -> bool {
    match next {
        Some(t) => {
            &&& exists|i: int| 0 <= i < slots.len() && #[trigger] slots[i] == Some(t)
            &&& forall|i: int|
                0 <= i < slots.len() ==> (#[trigger] slots[i] matches Some(u) ==> t <= u)
        },
        None => forall|i: int| 0 <= i < slots.len() ==> #[trigger] slots[i] is None,
    }
}

impl<K: DeadlineKey, const SLOTS: usize> View for DeadlineSet<K, SLOTS> {
    type V = Seq<Option<u64>>;

    /// The armed deadlines in ticks, by slot.
    closed spec fn view(&self) -> Seq<Option<u64>> {
        self.slots@.map_values(|d: Option<Deadline>| armed(d))
    }
}

impl<K: DeadlineKey, const SLOTS: usize> Default for DeadlineSet<K, SLOTS> {
    fn default() -> (r: Self)
        ensures
            r@ == Seq::new(SLOTS as nat, |i: int| None::<u64>),
    {
        let r = DeadlineSet { slots: [None;SLOTS], _key: core::marker::PhantomData };
        assert(r@ =~= Seq::new(SLOTS as nat, |i: int| None::<u64>));
        r
    }
}

impl<K: DeadlineKey, const SLOTS: usize> DeadlineSet<K, SLOTS> {
    /// Create an empty set.
    pub fn new() -> (r: Self)
        ensures
            r@ == Seq::new(SLOTS as nat, |i: int| None::<u64>),
    {
        Self::default()
    }

    /// Arm (or overwrite) the deadline for `key`.
    pub fn set(&mut self, key: K, at: Instant)
        requires
            key.spec_slot() < SLOTS,
        ensures
            final(self)@.len() == SLOTS,
            final(self)@ == old(self)@.update(key.spec_slot() as int, Some(kept_ticks(at))),
    {
        let slot: usize = key.slot();
        self.slots[slot] = Some(Deadline::new(at));
        assert(self@ =~= old(self)@.update(slot as int, Some(kept_ticks(at))));
    }

    /// Clear the deadline for `key`.
    pub fn clear(&mut self, key: K)
        requires
            key.spec_slot() < SLOTS,
        ensures
            final(self)@.len() == SLOTS,
            final(self)@ == old(self)@.update(key.spec_slot() as int, None),
    {
        let slot: usize = key.slot();
        self.slots[slot] = None;
        assert(self@ =~= old(self)@.update(slot as int, None));
    }

    /// Arm the deadline for `key`, keeping any later existing one.
    pub fn extend(&mut self, key: K, at: Instant)
        requires
            key.spec_slot() < SLOTS,
        ensures
            final(self)@.len() == SLOTS,
            final(self)@ == match old(self)@[key.spec_slot() as int] {
                Some(current) => if at.ticks <= current {
                    old(self)@
                } else {
                    old(self)@.update(key.spec_slot() as int, Some(at.ticks))
                },
                None => old(self)@.update(key.spec_slot() as int, Some(kept_ticks(at))),
            },
            // The later of the two instants, so that no deadline is brought forward.
            final(self)@[key.spec_slot() as int] matches Some(t) && t >= at.ticks && (old(
                self,
            )@[key.spec_slot() as int] matches Some(current) ==> t >= current && (t == current || t
                == at.ticks)),
    {
        if let Some(current) = self.get(key) {
            if at.ticks <= current.ticks {
                return;
            }
        }
        self.set(key, at);
    }

    /// Mirror a source-owned deadline into the table: set when the source reports
    /// one, clear when it reports none.
    pub fn set_or_clear(&mut self, key: K, at: Option<Instant>)
        requires
            key.spec_slot() < SLOTS,
        ensures
            final(self)@.len() == SLOTS,
            final(self)@ == old(self)@.update(
                key.spec_slot() as int,
                match at {
                    Some(at) => Some(kept_ticks(at)),
                    None => None,
                },
            ),
    {
        match at {
            Some(at) => self.set(key, at),
            None => self.clear(key),
        }
    }

    /// Get the armed deadline for `key`, if any.
    pub fn get(&self, key: K) -> (r: Option<Instant>)
        requires
            key.spec_slot() < SLOTS,
        ensures
            self@.len() == SLOTS,
            r == match self@[key.spec_slot() as int] {
                Some(ticks) => Some(Instant { ticks }),
                None => None,
            },
            r matches Some(at) ==> at.ticks != 0,
    {
        match self.slots[key.slot()] {
            Some(d) => Some(d.instant()),
            None => None,
        }
    }

    /// Whether `key` is armed and its deadline has passed. A deadline at exactly
    /// `now` counts as due.
    pub fn is_due(&self, key: K, now: Instant) -> (r: bool)
        requires
            key.spec_slot() < SLOTS,
        ensures
            self@.len() == SLOTS,
            r == (self@[key.spec_slot() as int] matches Some(ticks) && ticks <= now.ticks),
    {
        match self.get(key) {
            Some(at) => at.ticks <= now.ticks,
            None => false,
        }
    }

    /// The earliest armed deadline, if any.
    pub fn next(&self) -> (r: Option<Instant>)
        ensures
            self@.len() == SLOTS,
            is_earliest(
                self@,
                match r {
                    Some(at) => Some(at.ticks),
                    None => None,
                },
            ),
    {
        let mut best: Option<Instant> = None;
        let mut i: usize = 0;
        while i < SLOTS
            invariant
                i <= SLOTS,
                self@.len() == SLOTS,
                is_earliest(
                    self@.subrange(0, i as int),
                    match best {
                        Some(at) => Some(at.ticks),
                        None => None,
                    },
                ),
            decreases SLOTS - i,
        {
            let ghost p = self@.subrange(0, i as int);
            let ghost q = self@.subrange(0, i + 1);
            let ghost before = best;
            if let Some(d) = self.slots[i] {
                let at = d.instant();
                let earlier = match best {
                    Some(b) => at.ticks < b.ticks,
                    None => true,
                };
                if earlier {
                    best = Some(at);
                }
            }
            proof {
                assert(q[i as int] == self@[i as int]);
                assert forall|j: int| 0 <= j < i implies q[j] == p[j] by {}
                if let Some(b) = best {
                    if self@[i as int] == Some(b.ticks) {
                        assert(q[i as int] == Some(b.ticks));
                    } else {
                        let k = choose|k: int|
                            0 <= k < p.len() && #[trigger] p[k] == Some(b.ticks);
                        assert(q[k] == Some(b.ticks));
                    }
                    assert forall|j: int| 0 <= j < q.len() implies (#[trigger] q[j] matches Some(
                        u,
                    ) ==> b.ticks <= u) by {
                        if j < i {
                            assert(p[j] == q[j]);
                        }
                    }
                } else {
                    assert forall|j: int| 0 <= j < q.len() implies #[trigger] q[j] is None by {
                        if j < i {
                            assert(p[j] == q[j]);
                        }
                    }
                }
            }
            i = i + 1;
        }
        assert(self@.subrange(0, i as int) =~= self@);
        best
    }
}

// ---------------------------------------------------------------------------
// Laws
// ---------------------------------------------------------------------------

/// The wait never oversleeps: once the earliest deadline is due, the slot that set
/// it is, and while it is not, none is.
pub proof fn law_the_earliest_deadline_tells_whether_any_is_due(
    slots: Seq<Option<u64>>,
    next: Option<u64>,
    now: u64,
)
    requires
        is_earliest(slots, next),
    ensures
        (next matches Some(t) && t <= now) <==> exists|i: int|
            0 <= i < slots.len() && (#[trigger] slots[i] matches Some(u) && u <= now),
{
    if let Some(t) = next {
        let k = choose|k: int| 0 <= k < slots.len() && #[trigger] slots[k] == Some(t);
        assert(slots[k] == Some(t));
    }
}

/// A deadline is kept at its own instant. Only the first instant is moved, by one tick, so that
/// no deadline is ever due before its time.
pub proof fn law_a_deadline_is_kept_to_the_tick(at: Instant)
    ensures
        kept_ticks(at) > 0,
        at.ticks > 0 ==> kept_ticks(at) == at.ticks,
        at.ticks == 0 ==> kept_ticks(at) == 1,
{
}

} // verus!
