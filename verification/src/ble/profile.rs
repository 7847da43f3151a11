//! Manage BLE profiles and bonding information.

use vstd::prelude::*;
use crate::bounded::CccdTable;
use crate::ble::conn::Address;

verus! {

/// Host profiles of a keyboard.
pub const NUM_BLE_PROFILE: usize = 3;

/// The dedicated dongle bond slot: the slot number after the normal profiles, so
/// pairing a dongle never touches a host bond. Never reached by profile cycling.
pub const DONGLE_PROFILE: u8 = 3;

/// Bond slots kept by the profile manager of a keyboard: the host profiles, plus
/// the dedicated dongle slot.
pub const BOND_SLOTS: usize = 4;

/// Who a bonded peer is.
#[derive(Clone, Copy, Debug)]
pub struct Identity {
    pub addr: Address,
    /// The key that resolves the peer's private addresses, where it sent one.
    pub irk: Option<u128>,
}

impl Identity {
    /// Whether both are the same identity.
    pub open spec fn is(self, other: Identity) -> bool {
        self.addr.names(other.addr) && self.irk == other.irk
    }

    pub fn same(&self, other: &Identity) -> (r: bool)
        ensures
            r == self.is(*other),
    {
        self.addr.same(&other.addr) && same_irk(self.irk, other.irk)
    }
}

#[derive(Clone, Copy, Debug, PartialEq, Eq, Structural)]
pub enum SecurityLevel {
    NoEncryption,
    Encrypted,
    EncryptedAuthenticated,
}

/// What a pairing leaves behind.
#[derive(Clone, Copy, Debug)]
pub struct BondInformation {
    /// The long-term key.
    pub ltk: u128,
    pub identity: Identity,
    pub is_bonded: bool,
    pub security_level: SecurityLevel,
}

impl BondInformation {
    /// Whether both are the same bond.
    pub open spec fn is(self, other: BondInformation) -> bool {
        &&& self.ltk == other.ltk
        &&& self.identity.addr.names(other.identity.addr)
        &&& self.identity.irk == other.identity.irk
        &&& self.is_bonded == other.is_bonded
        &&& self.security_level == other.security_level
    }

    pub fn same(&self, other: &BondInformation) -> (r: bool)
        ensures
            r == self.is(*other),
    {
        self.ltk == other.ltk && self.identity.addr.same(&other.identity.addr) && same_irk(
            self.identity.irk,
            other.identity.irk,
        ) && self.is_bonded == other.is_bonded && self.security_level == other.security_level
    }
}

fn same_irk(a: Option<u128>, b: Option<u128>) -> (r: bool)
    ensures
        r == (a == b),
{
    match (a, b) {
        (Some(x), Some(y)) => x == y,
        (None, None) => true,
        _ => false,
    }
}

/// Whether an identity of a bond stands for a peer, as
/// `trouble_host::Identity::match_identity` tells it: by address, by key, or by a
/// key that resolves the other's address.
pub uninterp spec fn identities_match(
    kind: u8,
    addr: Seq<u8>,
    irk: Option<u128>,
    peer_kind: u8,
    peer_addr: Seq<u8>,
    peer_irk: Option<u128>,
) -> bool;

/// `trouble_host::Identity::match_identity`. The result depends on the two
/// identities alone. Equal addresses always match; without keys nothing else
/// does. How a key resolves an address is left unsaid.
#[verifier::external_body]
fn match_identity(bond: &Identity, peer: &Identity) -> (r: bool)
    ensures
        r == identities_match(
            bond.addr.kind,
            bond.addr.addr@,
            bond.irk,
            peer.addr.kind,
            peer.addr.addr@,
            peer.irk,
        ),
        bond.addr.names(peer.addr) ==> r,
        bond.irk is None && peer.irk is None ==> r == bond.addr.names(peer.addr),
{
    let first = trouble_host::Identity {
        addr: trouble_host::Address::new(
            trouble_host::prelude::AddrKind::new(bond.addr.kind),
            trouble_host::prelude::BdAddr::new(bond.addr.addr),
        ),
        irk: bond.irk.and_then(trouble_host::IdentityResolvingKey::new),
    };
    let second = trouble_host::Identity {
        addr: trouble_host::Address::new(
            trouble_host::prelude::AddrKind::new(peer.addr.kind),
            trouble_host::prelude::BdAddr::new(peer.addr.addr),
        ),
        irk: peer.irk.and_then(trouble_host::IdentityResolvingKey::new),
    };
    first.match_identity(&second)
}

/// The bond kept for a profile.
#[derive(Debug)]
pub struct ProfileInfo {
    pub slot_num: u8,
    pub removed: bool,
    pub info: BondInformation,
    /// The client configuration table of this peer, byte for byte.
    pub cccd_table: CccdTable,
}

/// A [`ProfileInfo`] as contracts speak of it.
pub struct ProfileView {
    pub slot_num: u8,
    pub removed: bool,
    pub info: BondInformation,
    pub cccd_table: Seq<u8>,
}

impl View for ProfileInfo {
    type V = ProfileView;

    open spec fn view(&self) -> ProfileView {
        ProfileView {
            slot_num: self.slot_num,
            removed: self.removed,
            info: self.info,
            cccd_table: self.cccd_table@,
        }
    }
}

impl ProfileInfo {
    pub fn duplicate(&self) -> (r: ProfileInfo)
        ensures
            r@ == self@,
    {
        ProfileInfo {
            slot_num: self.slot_num,
            removed: self.removed,
            info: self.info,
            cccd_table: self.cccd_table.duplicate(),
        }
    }
}

impl Default for ProfileInfo {
    fn default() -> (r: Self)
        ensures
            r.slot_num == 0,
            !r.removed,
            r.info.ltk == 0,
            r.info.identity.irk is None,
            r.info.identity.addr.kind == 0,
            r.info.identity.addr.addr@ == seq![0u8, 0u8, 0u8, 0u8, 0u8, 0u8],
            !r.info.is_bonded,
            r.info.security_level == SecurityLevel::NoEncryption,
            r.cccd_table@ == Seq::<u8>::empty(),
    {
        let addr = [0u8;6];
        assert(addr@ =~= seq![0u8, 0u8, 0u8, 0u8, 0u8, 0u8]);
        ProfileInfo {
            slot_num: 0,
            removed: false,
            info: BondInformation {
                ltk: 0,
                identity: Identity { addr: Address { kind: 0, addr }, irk: None },
                is_bonded: false,
                security_level: SecurityLevel::NoEncryption,
            },
            cccd_table: CccdTable::new(),
        }
    }
}

/// Returns the maximum number of bytes required to encode a `T`: seven bits of it
/// in each.
pub fn varint_max<T: Sized>() -> (r: usize)
    requires
        vstd::layout::size_of::<T>() * 8 + 6 <= usize::MAX,
    ensures
        r == (vstd::layout::size_of::<T>() * 8 + 6) / 7,
{
    let bits: usize = core::mem::size_of::<T>() * 8;
    (bits + 6) / 7
}

// ---------------------------------------------------------------------------
// The bond table
// ---------------------------------------------------------------------------

/// Bonds by profile slot, at most `SLOTS` of them. The size fits the role:
/// [`BOND_SLOTS`] for a keyboard, a single slot for a dongle.
pub struct BondTable<const SLOTS: usize> {
    pub entries: Vec<ProfileInfo>,
}

/// The entries of a table.
pub open spec fn views(entries: Seq<ProfileInfo>) -> Seq<ProfileView> {
    entries.map_values(|e: ProfileInfo| e@)
}

/// The first entry for a slot, live or not; the number of entries where there is
/// none.
pub open spec fn slot_index(entries: Seq<ProfileView>, slot: u8) -> int
    decreases entries.len(),
{
    if entries.len() == 0 || entries[0].slot_num == slot {
        0
    } else {
        1 + slot_index(entries.drop_first(), slot)
    }
}

/// The live bond of a slot.
pub open spec fn live_bond(entries: Seq<ProfileView>, slot: u8) -> Option<ProfileView>
    decreases entries.len(),
{
    if entries.len() == 0 {
        None
    } else if entries[0].slot_num == slot && !entries[0].removed {
        Some(entries[0])
    } else {
        live_bond(entries.drop_first(), slot)
    }
}

proof fn lemma_slot_index(entries: Seq<ProfileView>, slot: u8, k: int)
    requires
        0 <= k <= entries.len(),
        forall|j: int| 0 <= j < k ==> (#[trigger] entries[j]).slot_num != slot,
        k < entries.len() ==> entries[k].slot_num == slot,
    ensures
        slot_index(entries, slot) == k,
    decreases k,
{
    if k > 0 {
        let t = entries.drop_first();
        assert forall|j: int| 0 <= j < k - 1 implies (#[trigger] t[j]).slot_num != slot by {
            assert(entries[j + 1].slot_num != slot);
        }
        lemma_slot_index(t, slot, k - 1);
    }
}

proof fn lemma_slot_index_bounds(entries: Seq<ProfileView>, slot: u8)
    ensures
        0 <= slot_index(entries, slot) <= entries.len(),
        slot_index(entries, slot) < entries.len() ==> entries[slot_index(
            entries,
            slot,
        )].slot_num == slot,
        forall|j: int|
            0 <= j < slot_index(entries, slot) ==> (#[trigger] entries[j]).slot_num != slot,
    decreases entries.len(),
{
    if entries.len() > 0 && entries[0].slot_num != slot {
        let t = entries.drop_first();
        lemma_slot_index_bounds(t, slot);
        assert forall|j: int| 0 <= j < slot_index(entries, slot) implies (
        #[trigger] entries[j]).slot_num != slot by {
            if j > 0 {
                assert(t[j - 1].slot_num != slot);
            }
        }
    }
}

proof fn lemma_live_bond(entries: Seq<ProfileView>, slot: u8, k: int)
    requires
        0 <= k <= entries.len(),
        forall|j: int|
            0 <= j < k ==> (#[trigger] entries[j]).slot_num != slot || entries[j].removed,
        k < entries.len() ==> entries[k].slot_num == slot && !entries[k].removed,
    ensures
        live_bond(entries, slot) == if k < entries.len() {
            Some(entries[k])
        } else {
            None
        },
    decreases k,
{
    if k > 0 {
        let t = entries.drop_first();
        assert forall|j: int| 0 <= j < k - 1 implies (#[trigger] t[j]).slot_num != slot
            || t[j].removed by {
            assert(entries[j + 1].slot_num != slot || entries[j + 1].removed);
        }
        lemma_live_bond(t, slot, k - 1);
    }
}

/// What an upsert does to a table of `slots` entries.
pub open spec fn upserted(entries: Seq<ProfileView>, slots: nat, new: ProfileView) -> (
    Seq<ProfileView>,
    Result<bool, ()>,
) {
    let i = slot_index(entries, new.slot_num);
    if i < entries.len() {
        if !entries[i].removed && entries[i].info.is(new.info) {
            (entries, Ok(false))
        } else {
            (entries.update(i, new), Ok(true))
        }
    } else if entries.len() < slots {
        (entries.push(new), Ok(true))
    } else {
        (entries, Err(()))
    }
}

/// A table with the bonds of a slot marked as removed.
pub open spec fn cleared(entries: Seq<ProfileView>, slot: u8) -> Seq<ProfileView> {
    entries.map_values(
        |e: ProfileView|
            if e.slot_num == slot {
                ProfileView { removed: true, ..e }
            } else {
                e
            },
    )
}

impl<const SLOTS: usize> View for BondTable<SLOTS> {
    type V = Seq<ProfileView>;

    open spec fn view(&self) -> Seq<ProfileView> {
        views(self.entries@)
    }
}

impl<const SLOTS: usize> BondTable<SLOTS> {
    pub open spec fn wf(&self) -> bool {
        self.entries@.len() <= SLOTS
    }

    pub fn new() -> (r: Self)
        ensures
            r.wf(),
            r@ == Seq::<ProfileView>::empty(),
    {
        let r = BondTable { entries: Vec::new() };
        assert(views(r.entries@) =~= Seq::<ProfileView>::empty());
        r
    }

    fn position(&self, slot: u8) -> (r: Option<usize>)
        ensures
            match r {
                Some(k) => k < self@.len() && k == slot_index(self@, slot),
                None => slot_index(self@, slot) == self@.len(),
            },
    {
        let mut i: usize = 0;
        while i < self.entries.len()
            invariant
                i <= self.entries@.len(),
                forall|j: int| 0 <= j < i ==> (#[trigger] self@[j]).slot_num != slot,
            decreases self.entries@.len() - i,
        {
            if self.entries[i].slot_num == slot {
                proof {
                    assert(self@[i as int].slot_num == slot);
                    lemma_slot_index(self@, slot, i as int);
                }
                return Some(i);
            }
            assert(self@[i as int].slot_num != slot);
            i = i + 1;
        }
        proof {
            lemma_slot_index(self@, slot, i as int);
        }
        None
    }
}

/// Live bonding information for a profile slot, skipping cleared entries.
pub fn bond_info_of<const SLOTS: usize>(bonded_devices: &BondTable<SLOTS>, slot_num: u8) -> (r:
    Option<&ProfileInfo>)
    ensures
        match r {
            Some(info) => live_bond(bonded_devices@, slot_num) == Some(info@),
            None => live_bond(bonded_devices@, slot_num) is None,
        },
{
    let mut i: usize = 0;
    while i < bonded_devices.entries.len()
        invariant
            i <= bonded_devices.entries@.len(),
            forall|j: int|
                0 <= j < i ==> (#[trigger] bonded_devices@[j]).slot_num != slot_num
                    || bonded_devices@[j].removed,
        decreases bonded_devices.entries@.len() - i,
    {
        let e = &bonded_devices.entries[i];
        assert(bonded_devices@[i as int] == e@);
        if !e.removed && e.slot_num == slot_num {
            proof {
                lemma_live_bond(bonded_devices@, slot_num, i as int);
            }
            return Some(e);
        }
        i = i + 1;
    }
    proof {
        lemma_live_bond(bonded_devices@, slot_num, i as int);
    }
    None
}

/// Upserts bonding information for a profile slot.
///
/// Returns `Ok(true)` if the entry was inserted, changed, or revived from
/// `removed`, `Ok(false)` if a live entry already held the same info, and
/// `Err(())` if the table is full.
pub fn upsert_bond_info<const SLOTS: usize>(
    bonded_devices: &mut BondTable<SLOTS>,
    profile_info: &ProfileInfo,
) -> (r: Result<bool, ()>)
    requires
        old(bonded_devices).wf(),
    ensures
        final(bonded_devices).wf(),
        (final(bonded_devices)@, r) == upserted(old(bonded_devices)@, SLOTS as nat, profile_info@),
{
    let ghost before = bonded_devices@;
    match bonded_devices.position(profile_info.slot_num) {
        Some(k) => {
            let e = &bonded_devices.entries[k];
            assert(before[k as int] == e@);
            if !e.removed && e.info.same(&profile_info.info) {
                return Ok(false);
            }
            let copy = profile_info.duplicate();
            bonded_devices.entries.set(k, copy);
            assert(bonded_devices@ =~= before.update(k as int, profile_info@));
            Ok(true)
        },
        None => {
            if bonded_devices.entries.len() >= SLOTS {
                return Err(());
            }
            let copy = profile_info.duplicate();
            bonded_devices.entries.push(copy);
            assert(bonded_devices@ =~= before.push(profile_info@));
            Ok(true)
        },
    }
}

// ---------------------------------------------------------------------------
// The profile manager
// ---------------------------------------------------------------------------

/// BLE profile switch action.
#[derive(Clone, Copy, Debug, PartialEq, Eq, Structural)]
pub enum BleProfileAction {
    Switch(u8),
    Previous,
    Next,
    ClearBond,
    /// Clear the bond for an explicit slot, regardless of which slot is currently
    /// active.
    ClearSlot(u8),
}

/// What is to be written to storage.
#[derive(Debug)]
pub enum ProfileStore {
    /// Nothing.
    Nothing,
    /// The bond of a profile.
    ProfileInfo(ProfileInfo),
    /// The active profile.
    ActiveProfile(u8),
    /// A slot without a bond.
    ClearSlot(u8),
}

/// Manages multiple BLE profiles, of which one is active, and the bond of each.
pub struct ProfileManager<const SLOTS: usize> {
    /// List of bonded devices.
    pub bonded_devices: BondTable<SLOTS>,
    /// The active profile.
    pub active: u8,
}

/// The profile before `current`, going round the host profiles.
pub open spec fn previous_profile(current: u8) -> u8 {
    if current == 0 {
        (NUM_BLE_PROFILE - 1) as u8
    } else {
        (current - 1) as u8
    }
}

/// The profile after `current`. Cycling stays within the host profiles: the dongle
/// slot sits past the last one, so it wraps there too.
pub open spec fn next_profile(current: u8) -> u8 {
    if current + 1 >= NUM_BLE_PROFILE {
        0
    } else {
        (current + 1) as u8
    }
}

/// The entries that a manager of `slots` slots keeps of what storage holds: the
/// live ones, as long as there is room.
pub open spec fn loaded(stored: Seq<Option<ProfileInfo>>, slots: nat) -> Seq<ProfileView>
    decreases stored.len(),
{
    if stored.len() == 0 {
        Seq::empty()
    } else {
        let rest = loaded(stored.drop_last(), slots);
        match stored.last() {
            Some(info) => if !info.removed && rest.len() < slots {
                rest.push(info@)
            } else {
                rest
            },
            None => rest,
        }
    }
}

impl<const SLOTS: usize> ProfileManager<SLOTS> {
    pub open spec fn wf(&self) -> bool {
        self.bonded_devices.wf()
    }

    /// The live bond of the active profile.
    pub open spec fn active_bond(&self) -> Option<ProfileView> {
        live_bond(self.bonded_devices@, self.active)
    }

    /// Create a new profile manager.
    pub fn new() -> (r: Self)
        ensures
            r.wf(),
            r.bonded_devices@ == Seq::<ProfileView>::empty(),
            r.active == 0,
    {
        ProfileManager { bonded_devices: BondTable::new(), active: 0 }
    }

    /// Takes over what storage holds: the bond of each slot, and the active
    /// profile. Cleared bonds are left out; without a stored profile the first is
    /// active. Whether the active profile is bonded comes back.
    pub fn load_bonded_devices(
        &mut self,
        stored: &Vec<Option<ProfileInfo>>,
        active: Option<u8>,
    ) -> (bonded: bool)
        ensures
            final(self).wf(),
            final(self).bonded_devices@ == loaded(stored@, SLOTS as nat),
            final(self).active == match active {
                Some(profile) => profile,
                None => 0,
            },
            bonded == (final(self).active_bond() is Some),
    {
        let mut table: BondTable<SLOTS> = BondTable::new();
        let mut i: usize = 0;
        proof {
            assert(stored@.subrange(0, 0) =~= Seq::<Option<ProfileInfo>>::empty());
        }
        while i < stored.len()
            invariant
                i <= stored@.len(),
                table.wf(),
                table@ == loaded(stored@.subrange(0, i as int), SLOTS as nat),
            decreases stored@.len() - i,
        {
            proof {
                let p = stored@.subrange(0, i + 1);
                assert(p.drop_last() =~= stored@.subrange(0, i as int));
                assert(p.last() == stored@[i as int]);
            }
            if let Some(info) = &stored[i] {
                if !info.removed && table.entries.len() < SLOTS {
                    let ghost before = table@;
                    table.entries.push(info.duplicate());
                    assert(table@ =~= before.push(info@));
                }
            }
            i = i + 1;
        }
        assert(stored@.subrange(0, i as int) =~= stored@);
        self.bonded_devices = table;
        self.active = match active {
            Some(profile) => profile,
            None => 0,
        };
        self.is_bonded(self.active)
    }

    pub fn is_bonded(&self, slot_num: u8) -> (r: bool)
        ensures
            r == (live_bond(self.bonded_devices@, slot_num) is Some),
    {
        bond_info_of(&self.bonded_devices, slot_num).is_some()
    }

    /// Bond info for the currently active profile.
    pub fn active_bond_info(&self) -> (r: Option<ProfileInfo>)
        ensures
            match r {
                Some(info) => self.active_bond() == Some(info@),
                None => self.active_bond() is None,
            },
    {
        match bond_info_of(&self.bonded_devices, self.active) {
            Some(info) => Some(info.duplicate()),
            None => None,
        }
    }

    /// What the BLE stack is to hold: the bond of the active profile and no other.
    pub fn update_stack_bonds(&self) -> (r: Option<BondInformation>)
        ensures
            r == match self.active_bond() {
                Some(info) => Some(info.info),
                None => None,
            },
    {
        match bond_info_of(&self.bonded_devices, self.active) {
            Some(info) => Some(info.info),
            None => None,
        }
    }

    /// Check if the `identity` is the bonded dongle's identity: a connected dongle
    /// is excluded when a host is searched for.
    pub fn is_bonded_dongle(&self, identity: &Identity) -> (r: bool)
        ensures
            r == exists|i: int|
                0 <= i < self.bonded_devices@.len() && matches_dongle(
                    #[trigger] self.bonded_devices@[i],
                    *identity,
                ),
    {
        let mut i: usize = 0;
        while i < self.bonded_devices.entries.len()
            invariant
                i <= self.bonded_devices.entries@.len(),
                forall|j: int|
                    0 <= j < i ==> !matches_dongle(
                        #[trigger] self.bonded_devices@[j],
                        *identity,
                    ),
            decreases self.bonded_devices.entries@.len() - i,
        {
            let e = &self.bonded_devices.entries[i];
            assert(self.bonded_devices@[i as int] == e@);
            if !e.removed && e.slot_num == DONGLE_PROFILE && match_identity(
                &e.info.identity,
                identity,
            ) {
                assert(matches_dongle(self.bonded_devices@[i as int], *identity));
                return true;
            }
            i = i + 1;
        }
        false
    }

    /// Add/update bonding information. What enters the table is stored; a bond
    /// that is already there or that the table rejects is not.
    pub fn add_profile_info(&mut self, profile_info: &ProfileInfo) -> (r: ProfileStore)
        requires
            old(self).wf(),
        ensures
            final(self).wf(),
            final(self).active == old(self).active,
            ({
                let (after, result) = upserted(
                    old(self).bonded_devices@,
                    SLOTS as nat,
                    profile_info@,
                );
                &&& final(self).bonded_devices@ == after
                &&& if result == Ok::<bool, ()>(true) {
                    r matches ProfileStore::ProfileInfo(info) && info@ == profile_info@
                } else {
                    r is Nothing
                }
            }),
    {
        match upsert_bond_info(&mut self.bonded_devices, profile_info) {
            Ok(true) => ProfileStore::ProfileInfo(profile_info.duplicate()),
            _ => ProfileStore::Nothing,
        }
    }

    /// Takes over the client configuration table of the active profile's peer. An
    /// unchanged one is not stored again.
    pub fn update_profile_cccd_table(&mut self, table: CccdTable) -> (r: ProfileStore)
        requires
            old(self).wf(),
        ensures
            final(self).wf(),
            final(self).active == old(self).active,
            ({
                let before = old(self).bonded_devices@;
                let i = slot_index(before, old(self).active);
                if i < before.len() && before[i].cccd_table != table@ {
                    let new = ProfileView { cccd_table: table@, ..before[i] };
                    &&& final(self).bonded_devices@ == before.update(i, new)
                    &&& r matches ProfileStore::ProfileInfo(info) && info@ == new
                } else {
                    final(self).bonded_devices@ == before && r is Nothing
                }
            }),
    {
        let ghost before = self.bonded_devices@;
        match self.bonded_devices.position(self.active) {
            None => ProfileStore::Nothing,
            Some(k) => {
                let e = &self.bonded_devices.entries[k];
                assert(before[k as int] == e@);
                if same_table(e.cccd_table.as_slice(), table.as_slice()) {
                    return ProfileStore::Nothing;
                }
                let changed = ProfileInfo {
                    slot_num: e.slot_num,
                    removed: e.removed,
                    info: e.info,
                    cccd_table: table,
                };
                let copy = changed.duplicate();
                self.bonded_devices.entries.set(k, changed);
                assert(self.bonded_devices@ =~= before.update(k as int, copy@));
                ProfileStore::ProfileInfo(copy)
            },
        }
    }

    /// Clear bonding information of the specified slot.
    pub fn clear_bond(&mut self, slot_num: u8) -> (r: ProfileStore)
        requires
            old(self).wf(),
        ensures
            final(self).wf(),
            final(self).active == old(self).active,
            final(self).bonded_devices@ == cleared(old(self).bonded_devices@, slot_num),
            r == ProfileStore::ClearSlot(slot_num),
    {
        let ghost before = self.bonded_devices@;
        let n: usize = self.bonded_devices.entries.len();
        let mut i: usize = 0;
        while i < n
            invariant
                n == self.bonded_devices.entries@.len(),
                n == before.len(),
                n <= SLOTS,
                i <= n,
                self.active == old(self).active,
                forall|j: int|
                    0 <= j < i ==> self.bonded_devices@[j] == cleared(before, slot_num)[j],
                forall|j: int| i <= j < n ==> self.bonded_devices@[j] == before[j],
            decreases n - i,
        {
            let e = &self.bonded_devices.entries[i];
            assert(self.bonded_devices@[i as int] == e@);
            if e.slot_num == slot_num {
                let mut copy = e.duplicate();
                copy.removed = true;
                let ghost now = self.bonded_devices@;
                self.bonded_devices.entries.set(i, copy);
                assert(self.bonded_devices@ =~= now.update(i as int, copy@));
            }
            i = i + 1;
        }
        assert(self.bonded_devices@ =~= cleared(before, slot_num));
        ProfileStore::ClearSlot(slot_num)
    }

    /// Switch to the specified profile. Nothing is stored where it is the active
    /// one already.
    pub fn switch_profile(&mut self, profile: u8) -> (r: ProfileStore)
        requires
            old(self).wf(),
        ensures
            final(self).wf(),
            final(self).active == profile,
            final(self).bonded_devices@ == old(self).bonded_devices@,
            r == if profile == old(self).active {
                ProfileStore::Nothing
            } else {
                ProfileStore::ActiveProfile(profile)
            },
    {
        if profile == self.active {
            return ProfileStore::Nothing;
        }
        self.active = profile;
        ProfileStore::ActiveProfile(profile)
    }

    /// Carries out a profile action. The second result says whether the action is
    /// over: a switch to the profile that is active already leaves the manager
    /// waiting for another action.
    pub fn update_profile(&mut self, action: BleProfileAction) -> (r: (ProfileStore, bool))
        requires
            old(self).wf(),
            action is Next ==> old(self).active < u8::MAX,
        ensures
            final(self).wf(),
            match action {
                BleProfileAction::Switch(profile) => {
                    &&& final(self).active == profile
                    &&& final(self).bonded_devices@ == old(self).bonded_devices@
                    &&& r.1 == (profile != old(self).active)
                },
                BleProfileAction::Previous => {
                    &&& final(self).active == previous_profile(old(self).active)
                    &&& final(self).bonded_devices@ == old(self).bonded_devices@
                    &&& r.1
                },
                BleProfileAction::Next => {
                    &&& final(self).active == next_profile(old(self).active)
                    &&& final(self).bonded_devices@ == old(self).bonded_devices@
                    &&& r.1
                },
                BleProfileAction::ClearBond => {
                    &&& final(self).active == old(self).active
                    &&& final(self).bonded_devices@ == cleared(
                        old(self).bonded_devices@,
                        old(self).active,
                    )
                    &&& r == (ProfileStore::ClearSlot(old(self).active), true)
                },
                BleProfileAction::ClearSlot(slot) => {
                    &&& final(self).active == old(self).active
                    &&& final(self).bonded_devices@ == cleared(old(self).bonded_devices@, slot)
                    &&& r == (ProfileStore::ClearSlot(slot), true)
                },
            },
            !(action is ClearBond) && !(action is ClearSlot) ==> r.0 == if final(self).active == old(
                self,
            ).active {
                ProfileStore::Nothing
            } else {
                ProfileStore::ActiveProfile(final(self).active)
            },
    {
        match action {
            BleProfileAction::Switch(profile) => {
                let switched = profile != self.active;
                (self.switch_profile(profile), switched)
            },
            BleProfileAction::Previous => {
                let profile: u8 = if self.active == 0 {
                    NUM_BLE_PROFILE as u8 - 1
                } else {
                    self.active - 1
                };
                (self.switch_profile(profile), true)
            },
            BleProfileAction::Next => {
                let next: u8 = self.active + 1;
                let profile: u8 = if next >= NUM_BLE_PROFILE as u8 {
                    0
                } else {
                    next
                };
                (self.switch_profile(profile), true)
            },
            BleProfileAction::ClearBond => (self.clear_bond(self.active), true),
            BleProfileAction::ClearSlot(slot) => (self.clear_bond(slot), true),
        }
    }
}

/// Whether an entry is the live bond of a dongle with that identity.
pub open spec fn matches_dongle(e: ProfileView, identity: Identity) -> bool {
    &&& !e.removed
    &&& e.slot_num == DONGLE_PROFILE
    &&& identities_match(
        e.info.identity.addr.kind,
        e.info.identity.addr.addr@,
        e.info.identity.irk,
        identity.addr.kind,
        identity.addr.addr@,
        identity.irk,
    )
}

fn same_table(a: &[u8], b: &[u8]) -> (r: bool)
    ensures
        r == (a@ == b@),
{
    if a.len() != b.len() {
        return false;
    }
    let mut i: usize = 0;
    while i < a.len()
        invariant
            a@.len() == b@.len(),
            i <= a@.len(),
            forall|j: int| 0 <= j < i ==> a@[j] == b@[j],
        decreases a@.len() - i,
    {
        if a[i] != b[i] {
            return false;
        }
        i = i + 1;
    }
    assert(a@ =~= b@);
    true
}

// ---------------------------------------------------------------------------
// Laws
// ---------------------------------------------------------------------------

/// No slot has two entries.
pub open spec fn slots_unique(entries: Seq<ProfileView>) -> bool {
    forall|i: int, j: int|
        0 <= i < j < entries.len() ==> (#[trigger] entries[i]).slot_num != (
        #[trigger] entries[j]).slot_num
}

/// An upsert never gives a slot a second entry, never outgrows the table, and
/// evicts nothing: a full table stays as it is.
pub proof fn law_upsert_keeps_one_entry_per_slot(
    entries: Seq<ProfileView>,
    slots: nat,
    new: ProfileView,
)
    requires
        slots_unique(entries),
        entries.len() <= slots,
    ensures
        slots_unique(upserted(entries, slots, new).0),
        upserted(entries, slots, new).0.len() <= slots,
        upserted(entries, slots, new).1 is Err ==> upserted(entries, slots, new).0 == entries,
{
    lemma_slot_index_bounds(entries, new.slot_num);
    let after = upserted(entries, slots, new).0;
    assert forall|i: int, j: int| 0 <= i < j < after.len() implies (#[trigger] after[i]).slot_num
        != (#[trigger] after[j]).slot_num by {
        if j < entries.len() {
            assert(entries[i].slot_num != entries[j].slot_num);
        }
    }
}

/// After a live bond was upserted its slot has it, or an equal one that was there
/// before; no other slot's bond changes.
pub proof fn law_upsert_bonds_its_slot_only(
    entries: Seq<ProfileView>,
    slots: nat,
    new: ProfileView,
    other: u8,
)
    requires
        slots_unique(entries),
        !new.removed,
        upserted(entries, slots, new).1 is Ok,
    ensures
        live_bond(upserted(entries, slots, new).0, new.slot_num) matches Some(b) && b.info.is(
            new.info,
        ),
        other != new.slot_num ==> live_bond(upserted(entries, slots, new).0, other) == live_bond(
            entries,
            other,
        ),
{
    lemma_slot_index_bounds(entries, new.slot_num);
    let after = upserted(entries, slots, new).0;
    let k = slot_index(entries, new.slot_num);
    lemma_live_bond(after, new.slot_num, k);
    if other != new.slot_num {
        if k < entries.len() {
            lemma_live_bond_of_other(entries, k, after[k], other);
            assert(after =~= entries.update(k, after[k]));
        } else {
            lemma_live_bond_push(entries, new, other);
        }
    }
}

proof fn lemma_live_bond_of_other(entries: Seq<ProfileView>, k: int, new: ProfileView, other: u8)
    requires
        0 <= k < entries.len(),
        entries[k].slot_num != other,
        new.slot_num != other,
    ensures
        live_bond(entries.update(k, new), other) == live_bond(entries, other),
    decreases entries.len(),
{
    let u = entries.update(k, new);
    if k == 0 {
        assert(u.drop_first() =~= entries.drop_first());
    } else {
        assert(u.drop_first() =~= entries.drop_first().update(k - 1, new));
        lemma_live_bond_of_other(entries.drop_first(), k - 1, new, other);
    }
}

proof fn lemma_live_bond_push(entries: Seq<ProfileView>, new: ProfileView, other: u8)
    requires
        new.slot_num != other,
    ensures
        live_bond(entries.push(new), other) == live_bond(entries, other),
    decreases entries.len(),
{
    if entries.len() == 0 {
        assert(entries.push(new).drop_first() =~= entries);
    } else {
        assert(entries.push(new).drop_first() =~= entries.drop_first().push(new));
        lemma_live_bond_push(entries.drop_first(), new, other);
    }
}

/// A cleared slot has no bond, and no other slot loses its own.
pub proof fn law_a_cleared_slot_has_no_bond(entries: Seq<ProfileView>, slot: u8, other: u8)
    ensures
        live_bond(cleared(entries, slot), slot) is None,
        other != slot ==> live_bond(cleared(entries, slot), other) == live_bond(entries, other),
    decreases entries.len(),
{
    if entries.len() > 0 {
        let c = cleared(entries, slot);
        assert(c.drop_first() =~= cleared(entries.drop_first(), slot));
        law_a_cleared_slot_has_no_bond(entries.drop_first(), slot, other);
    }
}

/// A cleared slot can be paired again with the very same bond.
pub proof fn law_a_cleared_slot_can_be_paired_again(
    entries: Seq<ProfileView>,
    slots: nat,
    new: ProfileView,
)
    requires
        slots_unique(entries),
        !new.removed,
        slot_index(entries, new.slot_num) < entries.len(),
    ensures
        upserted(cleared(entries, new.slot_num), slots, new).1 == Ok::<bool, ()>(true),
        live_bond(upserted(cleared(entries, new.slot_num), slots, new).0, new.slot_num) == Some(
            new,
        ),
{
    let c = cleared(entries, new.slot_num);
    lemma_slot_index_bounds(entries, new.slot_num);
    let k = slot_index(entries, new.slot_num);
    assert forall|j: int| 0 <= j < k implies (#[trigger] c[j]).slot_num != new.slot_num by {
        assert(entries[j].slot_num != new.slot_num);
    }
    lemma_slot_index(c, new.slot_num, k);
    lemma_live_bond(upserted(c, slots, new).0, new.slot_num, k);
}

/// Cycling through profiles stays within the host profiles, and from any of them
/// a step forth and a step back lead home.
pub proof fn law_cycling_stays_within_the_host_profiles(current: u8)
    requires
        current < u8::MAX,
    ensures
        next_profile(current) < NUM_BLE_PROFILE,
        current <= NUM_BLE_PROFILE ==> previous_profile(current) < NUM_BLE_PROFILE,
        current < NUM_BLE_PROFILE ==> previous_profile(next_profile(current)) == current
            && next_profile(previous_profile(current)) == current,
{
}

/// Two bonds are the same where they agree in everything: in the key, in the peer's address and
/// in the key that resolves it, and in how the link is secured.
pub proof fn law_bonds_differ_in_any_part(a: BondInformation, b: BondInformation)
    ensures
        a.is(a),
        a.is(b) <==> b.is(a),
        a.ltk != b.ltk ==> !a.is(b),
        a.identity.addr.addr@ != b.identity.addr.addr@ ==> !a.is(b),
        a.identity.irk != b.identity.irk ==> !a.is(b),
        a.is_bonded != b.is_bonded ==> !a.is(b),
        a.security_level != b.security_level ==> !a.is(b),
        a.is(b) ==> a.identity.is(b.identity),
        a.identity.irk != b.identity.irk || a.identity.addr.addr@ != b.identity.addr.addr@
            ==> !a.identity.is(b.identity),
{
}

proof fn lemma_first_entry(entries: Seq<ProfileView>, slot: u8)
    ensures
        0 <= slot_index(entries, slot) <= entries.len(),
        slot_index(entries, slot) < entries.len() ==> entries[slot_index(entries, slot)].slot_num
            == slot,
        forall|j: int|
            0 <= j < slot_index(entries, slot) ==> (#[trigger] entries[j]).slot_num != slot,
    decreases entries.len(),
{
    if entries.len() > 0 && entries[0].slot_num != slot {
        let t = entries.drop_first();
        lemma_first_entry(t, slot);
        assert forall|j: int| 0 <= j < slot_index(entries, slot) implies (
        #[trigger] entries[j]).slot_num != slot by {
            if j > 0 {
                assert(t[j - 1] == entries[j]);
            }
        }
    }
}

/// What an upsert tells: a bond that its slot already has, live, is neither taken in nor told as
/// a change; any other is, in its slot's own entry where there is one. It is rejected only where
/// its slot has no entry and every entry is taken.
pub proof fn law_an_upsert_tells_whether_it_changed_anything(
    entries: Seq<ProfileView>,
    slots: nat,
    new: ProfileView,
    k: int,
)
    requires
        slots_unique(entries),
        0 <= k < entries.len(),
    ensures
        ({
            let (after, r) = upserted(entries, slots, new);
            &&& entries[k].slot_num == new.slot_num ==> {
                &&& !entries[k].removed && entries[k].info.is(new.info) ==> after == entries && r
                    == Ok::<bool, ()>(false)
                &&& entries[k].removed || !entries[k].info.is(new.info) ==> r == Ok::<bool, ()>(
                    true,
                ) && after.len() == entries.len() && after[k] == new
            }
            &&& entries[k].slot_num != new.slot_num ==> after[k] == entries[k]
            &&& (forall|j: int|
                0 <= j < entries.len() ==> (#[trigger] entries[j]).slot_num != new.slot_num) ==> (
            if entries.len() < slots {
                r == Ok::<bool, ()>(true) && after == entries.push(new)
            } else {
                r is Err && after == entries
            })
        }),
{
    let i = slot_index(entries, new.slot_num);
    lemma_first_entry(entries, new.slot_num);
    if entries[k].slot_num == new.slot_num {
        if k < i {
            assert(entries[k].slot_num != new.slot_num);
        }
        if i < k {
            assert(entries[i].slot_num != entries[k].slot_num);
        }
    }
}

/// The bond of a slot is a live entry of that slot, and a slot with a live entry has a bond.
pub proof fn law_a_bond_is_a_live_entry_of_its_slot(entries: Seq<ProfileView>, slot: u8)
    ensures
        live_bond(entries, slot) matches Some(b) ==> entries.contains(b) && !b.removed
            && b.slot_num == slot,
        live_bond(entries, slot) is None <==> forall|i: int|
            0 <= i < entries.len() ==> (#[trigger] entries[i]).removed || entries[i].slot_num
                != slot,
    decreases entries.len(),
{
    if entries.len() > 0 {
        let t = entries.drop_first();
        law_a_bond_is_a_live_entry_of_its_slot(t, slot);
        if entries[0].slot_num == slot && !entries[0].removed {
            assert(entries.contains(entries[0]));
        } else {
            if let Some(b) = live_bond(t, slot) {
                let k = choose|k: int| 0 <= k < t.len() && t[k] == b;
                assert(entries[k + 1] == b);
            }
            if live_bond(t, slot) is None {
                assert forall|i: int| 0 <= i < entries.len() implies (#[trigger] entries[i]).removed
                    || entries[i].slot_num != slot by {
                    if i > 0 {
                        assert(t[i - 1] == entries[i]);
                    }
                }
            } else if forall|i: int|
                0 <= i < entries.len() ==> (#[trigger] entries[i]).removed || entries[i].slot_num
                    != slot {
                assert forall|i: int| 0 <= i < t.len() implies (#[trigger] t[i]).removed
                    || t[i].slot_num != slot by {
                    assert(t[i] == entries[i + 1]);
                }
            }
        }
    }
}

/// Profiles are gone round in their order: from each of the three to the next and from the last
/// to the first, and the other way back. From the dongle's slot the way leads to the first, or
/// back to the last.
pub proof fn law_profiles_are_gone_round_in_order(current: u8)
    requires
        current < u8::MAX,
    ensures
        current < 2 ==> next_profile(current) == current + 1,
        current >= 2 ==> next_profile(current) == 0,
        current > 0 ==> previous_profile(current) == current - 1,
        current == 0 ==> previous_profile(current) == 2,
{
}

/// Of what storage holds, the live bonds are taken over in their order and the cleared ones are
/// not; with room for all of them, none is lost.
pub proof fn law_live_bonds_are_taken_over(stored: Seq<Option<ProfileInfo>>, slots: nat, i: int)
    requires
        0 <= i < stored.len(),
    ensures
        loaded(stored, slots).len() <= slots,
        loaded(stored, slots).len() <= stored.len(),
        stored.len() <= slots ==> (stored[i] matches Some(info) ==> (!info.removed ==> loaded(
            stored,
            slots,
        ).contains(info@))),
        forall|k: int|
            0 <= k < loaded(stored, slots).len() ==> !(#[trigger] loaded(stored, slots)[k]).removed
                && exists|j: int|
                0 <= j < stored.len() && (#[trigger] stored[j]) is Some && stored[j]->0@ == loaded(
                    stored,
                    slots,
                )[k],
    decreases stored.len(),
{
    let p = stored.drop_last();
    let rest = loaded(p, slots);
    let all = loaded(stored, slots);
    let last = stored.len() - 1;
    if p.len() > 0 {
        law_live_bonds_are_taken_over(
            p,
            slots,
            if i < last {
                i
            } else {
                0
            },
        );
    }
    if stored.len() <= slots {
        if let Some(info) = stored[i] {
            if !info.removed {
                if i < last {
                    assert(p[i] == stored[i]);
                    let k = choose|k: int| 0 <= k < rest.len() && rest[k] == info@;
                    assert(all[k] == info@);
                } else {
                    assert(all[rest.len() as int] == info@);
                }
            }
        }
    }
    assert forall|k: int| 0 <= k < all.len() implies !(#[trigger] all[k]).removed && exists|j: int|
        0 <= j < stored.len() && (#[trigger] stored[j]) is Some && stored[j]->0@ == all[k] by {
        if k < rest.len() {
            assert(all[k] == rest[k]);
            let j = choose|j: int|
                0 <= j < p.len() && (#[trigger] p[j]) is Some && p[j]->0@ == rest[k];
            assert(stored[j] == p[j]);
        } else {
            assert(stored[last] is Some && stored[last]->0@ == all[k]);
        }
    }
}

/// Only a live bond in the dongle's own slot makes a peer the bonded dongle.
pub proof fn law_a_host_bond_is_no_dongle(e: ProfileView, identity: Identity)
    ensures
        matches_dongle(e, identity) ==> e.slot_num == 3 && !e.removed,
        e.slot_num < 3 ==> !matches_dongle(e, identity),
{
}

} // verus!
