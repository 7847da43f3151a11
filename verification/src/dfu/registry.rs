//! Firmware images that the central holds for its peripherals.

use vstd::prelude::*;
use crate::dfu::MAX_DFU_ALTS;

verus! {

/// A firmware binary reference and its pre-computed CRC-32.
#[derive(Clone, Copy, Debug, PartialEq, Eq)]
pub struct FirmwareSlot {
    pub data: &'static [u8],
    pub hash: u32,
}

/// Images by peripheral id, held in a `heapless::Vec` of [`MAX_DFU_ALTS`]
/// entries.
#[verifier::external_body]
pub struct FirmwareSlots {
    inner: heapless::Vec<(usize, FirmwareSlot), MAX_DFU_ALTS>,
}

/// The entries of the registry, in the order of their registration.
pub uninterp spec fn firmware_slots(slots: FirmwareSlots) -> Seq<(usize, FirmwareSlot)>;

impl View for FirmwareSlots {
    type V = Seq<(usize, FirmwareSlot)>;

    open spec fn view(&self) -> Seq<(usize, FirmwareSlot)> {
        firmware_slots(*self)
    }
}

impl FirmwareSlots {
    /// `heapless::Vec::new`: no entries.
    #[verifier::external_body]
    fn empty() -> (r: Self)
        ensures
            firmware_slots(r) == Seq::<(usize, FirmwareSlot)>::empty(),
    {
        FirmwareSlots { inner: heapless::Vec::new() }
    }

    /// `heapless::Vec::as_slice`: the entries.
    #[verifier::external_body]
    fn entries(&self) -> (r: &[(usize, FirmwareSlot)])
        ensures
            r@ == firmware_slots(*self),
    {
        self.inner.as_slice()
    }

    /// `heapless::Vec::push`: one more entry at the end, or an error and no change
    /// where the capacity is used up.
    #[verifier::external_body]
    fn push(&mut self, entry: (usize, FirmwareSlot)) -> (r: Result<(), ()>)
        ensures
            match r {
                Ok(()) => firmware_slots(*old(self)).len() < MAX_DFU_ALTS && firmware_slots(
                    *final(self),
                ) == firmware_slots(*old(self)).push(entry),
                Err(()) => firmware_slots(*old(self)).len() >= MAX_DFU_ALTS && firmware_slots(
                    *final(self),
                ) == firmware_slots(*old(self)),
            },
    {
        match self.inner.push(entry) {
            Ok(()) => Ok(()),
            Err(_) => Err(()),
        }
    }

    /// Assignment through `heapless::Vec::as_mut_slice`: the entry at `index` is
    /// replaced.
    #[verifier::external_body]
    fn replace(&mut self, index: usize, entry: (usize, FirmwareSlot))
        requires
            index < firmware_slots(*old(self)).len(),
        ensures
            firmware_slots(*final(self)) == firmware_slots(*old(self)).update(index as int, entry),
    {
        self.inner.as_mut_slice()[index] = entry;
    }

    /// No image registered.
    pub fn new() -> (r: Self)
        ensures
            r@ == Seq::<(usize, FirmwareSlot)>::empty(),
            r.wf(),
    {
        Self::empty()
    }

    /// Every peripheral has at most one image.
    pub open spec fn wf(&self) -> bool {
        &&& self@.len() <= MAX_DFU_ALTS
        &&& forall|i: int, j: int|
            0 <= i < j < self@.len() ==> (#[trigger] self@[i]).0 != (#[trigger] self@[j]).0
    }
}

/// The image registered for `id`.
pub open spec fn lookup(slots: Seq<(usize, FirmwareSlot)>, id: usize) -> Option<FirmwareSlot>
    decreases slots.len(),
{
    if slots.len() == 0 {
        None
    } else if slots[0].0 == id {
        Some(slots[0].1)
    } else {
        lookup(slots.drop_first(), id)
    }
}

pub proof fn lemma_lookup_at(slots: Seq<(usize, FirmwareSlot)>, id: usize, k: int)
    requires
        0 <= k <= slots.len(),
        forall|j: int| 0 <= j < k ==> (#[trigger] slots[j]).0 != id,
        k < slots.len() ==> slots[k].0 == id,
    ensures
        lookup(slots, id) == if k < slots.len() {
            Some(slots[k].1)
        } else {
            None
        },
    decreases k,
{
    if k > 0 {
        let t = slots.drop_first();
        assert forall|j: int| 0 <= j < k - 1 implies (#[trigger] t[j]).0 != id by {
            assert(slots[j + 1].0 != id);
        }
        lemma_lookup_at(t, id, k - 1);
    }
}

proof fn lemma_lookup_none(slots: Seq<(usize, FirmwareSlot)>, id: usize)
    requires
        lookup(slots, id) is None,
    ensures
        forall|j: int| 0 <= j < slots.len() ==> (#[trigger] slots[j]).0 != id,
    decreases slots.len(),
{
    if slots.len() > 0 {
        let t = slots.drop_first();
        lemma_lookup_none(t, id);
        assert forall|j: int| 0 <= j < slots.len() implies (#[trigger] slots[j]).0 != id by {
            if j > 0 {
                assert(t[j - 1].0 != id);
            }
        }
    }
}

proof fn lemma_lookup_update(
    slots: Seq<(usize, FirmwareSlot)>,
    k: int,
    entry: (usize, FirmwareSlot),
    other: usize,
)
    requires
        0 <= k < slots.len(),
        slots[k].0 == entry.0,
        other != entry.0,
    ensures
        lookup(slots.update(k, entry), other) == lookup(slots, other),
    decreases slots.len(),
{
    let u = slots.update(k, entry);
    if k == 0 {
        assert(u.drop_first() =~= slots.drop_first());
    } else {
        assert(u.drop_first() =~= slots.drop_first().update(k - 1, entry));
        if slots[0].0 != other {
            lemma_lookup_update(slots.drop_first(), k - 1, entry, other);
        }
    }
}

proof fn lemma_lookup_push(
    slots: Seq<(usize, FirmwareSlot)>,
    entry: (usize, FirmwareSlot),
    other: usize,
)
    requires
        other != entry.0,
    ensures
        lookup(slots.push(entry), other) == lookup(slots, other),
    decreases slots.len(),
{
    if slots.len() > 0 {
        assert(slots.push(entry).drop_first() =~= slots.drop_first().push(entry));
        lemma_lookup_push(slots.drop_first(), entry, other);
    } else {
        assert(slots.push(entry).drop_first() =~= slots);
    }
}

fn position(slots: &FirmwareSlots, id: usize) -> (r: Option<usize>)
    ensures
        match r {
            Some(k) => k < slots@.len() && slots@[k as int].0 == id && lookup(slots@, id) == Some(
                slots@[k as int].1,
            ),
            None => lookup(slots@, id) is None,
        },
{
    let entries = slots.entries();
    let mut i: usize = 0;
    while i < entries.len()
        invariant
            entries@ == slots@,
            i <= entries@.len(),
            forall|j: int| 0 <= j < i ==> (#[trigger] slots@[j]).0 != id,
        decreases entries@.len() - i,
    {
        if entries[i].0 == id {
            proof {
                lemma_lookup_at(slots@, id, i as int);
            }
            return Some(i);
        }
        i = i + 1;
    }
    proof {
        lemma_lookup_at(slots@, id, i as int);
    }
    None
}

/// Register a peripheral firmware binary for automatic updates over the split
/// link.
///
/// `id` is the peripheral's index; `hash` is the CRC-32 of the firmware binary.
/// If an image for the same `id` already exists, it is replaced in its place.
///
/// Returns `Err(())`, and registers nothing, if the registry is full (max
/// [`MAX_DFU_ALTS`] entries).
pub fn set_firmware_update_data(
    slots: &mut FirmwareSlots,
    id: usize,
    firmware: &'static [u8],
    hash: u32,
) -> (r: Result<(), ()>)
    requires
        old(slots).wf(),
    ensures
        final(slots).wf(),
        r is Err <==> (lookup(old(slots)@, id) is None && old(slots)@.len() == MAX_DFU_ALTS),
        r is Err ==> final(slots)@ == old(slots)@,
        r is Ok ==> {
            &&& lookup(final(slots)@, id) == Some(FirmwareSlot { data: firmware, hash })
            &&& forall|other: usize|
                other != id ==> #[trigger] lookup(final(slots)@, other) == lookup(
                    old(slots)@,
                    other,
                )
            &&& final(slots)@.len() == old(slots)@.len() + if lookup(old(slots)@, id) is None {
                1int
            } else {
                0int
            }
        },
{
    let entry = (id, FirmwareSlot { data: firmware, hash });
    match position(slots, id) {
        Some(k) => {
            slots.replace(k, entry);
            proof {
                let before = old(slots)@;
                assert(slots@ == before.update(k as int, entry));
                assert forall|j: int| 0 <= j < k implies (#[trigger] slots@[j]).0 != id by {
                    assert(before[j].0 != before[k as int].0);
                }
                lemma_lookup_at(slots@, id, k as int);
                assert forall|other: usize| other != id implies #[trigger] lookup(slots@, other)
                    == lookup(before, other) by {
                    lemma_lookup_update(before, k as int, entry, other);
                }
                assert forall|i: int, j: int| 0 <= i < j < slots@.len() implies (
                #[trigger] slots@[i]).0 != (#[trigger] slots@[j]).0 by {
                    assert(before[i].0 != before[j].0);
                }
            }
            Ok(())
        },
        None => {
            let r = slots.push(entry);
            proof {
                let before = old(slots)@;
                lemma_lookup_none(before, id);
                if r is Ok {
                    lemma_lookup_at(slots@, id, before.len() as int);
                    assert forall|other: usize| other != id implies #[trigger] lookup(slots@, other)
                        == lookup(before, other) by {
                        lemma_lookup_push(before, entry, other);
                    }
                    assert forall|i: int, j: int| 0 <= i < j < slots@.len() implies (
                    #[trigger] slots@[i]).0 != (#[trigger] slots@[j]).0 by {
                        if j < before.len() {
                            assert(before[i].0 != before[j].0);
                        } else {
                            assert(before[i].0 != id);
                        }
                    }
                }
            }
            r
        },
    }
}

/// Retrieve the firmware binary and its expected CRC-32 for a given peripheral
/// ID, if one has been registered.
pub fn get_firmware_update_data(slots: &FirmwareSlots, id: usize) -> (r: Option<
    (&'static [u8], u32),
>)
    ensures
        r == match lookup(slots@, id) {
            Some(slot) => Some((slot.data, slot.hash)),
            None => None,
        },
{
    match position(slots, id) {
        Some(k) => {
            let slot = slots.entries()[k].1;
            Some((slot.data, slot.hash))
        },
        None => None,
    }
}

// ---------------------------------------------------------------------------
// Laws
// ---------------------------------------------------------------------------

/// A peripheral's image is the one that was registered for it, and for no other: where no
/// peripheral has two, looking it up finds exactly the entry with its id.
pub proof fn law_an_image_is_found_by_its_id(
    slots: Seq<(usize, FirmwareSlot)>,
    id: usize,
    slot: FirmwareSlot,
)
    requires
        forall|i: int, j: int|
            0 <= i < j < slots.len() ==> (#[trigger] slots[i]).0 != (#[trigger] slots[j]).0,
    ensures
        lookup(slots, id) == Some(slot) <==> slots.contains((id, slot)),
        lookup(slots, id) is None <==> forall|i: int|
            0 <= i < slots.len() ==> (#[trigger] slots[i]).0 != id,
    decreases slots.len(),
{
    if slots.len() > 0 {
        let t = slots.drop_first();
        assert forall|i: int, j: int| 0 <= i < j < t.len() implies (#[trigger] t[i]).0 != (
        #[trigger] t[j]).0 by {
            assert(slots[i + 1] == t[i]);
            assert(slots[j + 1] == t[j]);
        }
        law_an_image_is_found_by_its_id(t, id, slot);
        if slots.contains((id, slot)) {
            let k = choose|k: int| 0 <= k < slots.len() && slots[k] == (id, slot);
            if k > 0 {
                assert(slots[0].0 != slots[k].0);
                assert(t[k - 1] == (id, slot));
            }
        }
        if lookup(slots, id) == Some(slot) {
            if slots[0].0 == id {
                assert(slots[0] == (id, slot));
            } else {
                let k = choose|k: int| 0 <= k < t.len() && t[k] == (id, slot);
                assert(slots[k + 1] == t[k]);
            }
        }
        if lookup(slots, id) is None {
            assert forall|i: int| 0 <= i < slots.len() implies (#[trigger] slots[i]).0 != id by {
                if i > 0 {
                    assert(t[i - 1] == slots[i]);
                }
            }
        } else if slots[0].0 != id && forall|i: int|
            0 <= i < slots.len() ==> (#[trigger] slots[i]).0 != id {
            assert forall|i: int| 0 <= i < t.len() implies (#[trigger] t[i]).0 != id by {
                assert(t[i] == slots[i + 1]);
            }
        }
    }
}

} // verus!
