//! The central's end of the split link over BLE: finding peripherals, connecting
//! them, and tuning their links.

use vstd::prelude::*;
use crate::ble::conn::{Address, ConnParams, ADDR_KIND_RANDOM};
use crate::split::ble::PeerAddress;
use crate::split::driver::SplitDriverError;
use crate::split::{SplitMessage, SPLIT_PERIPHERALS_NUM};

verus! {

/// How long a sleeping keyboard waits before it looks again.
pub const SLEEP_POLL_SECS: u64 = 1;

/// How long peripherals have to answer a connect.
pub const CONNECT_TIMEOUT_SECS: u64 = 15;

/// How long to wait after a failed connect, and after a session.
pub const RETRY_MS: u64 = 500;

/// One peripheral link's lifecycle.
#[derive(Clone, Copy, Debug)]
pub enum SlotState {
    /// Unknown address: discover the peripheral by scanning.
    NoAddr,
    /// Known address without a live session: connect the peripheral.
    Disconnected([u8; 6]),
    /// The link is up and handed to the slot's session task.
    Connected([u8; 6]),
}

/// Peripherals to connect, held in a `heapless::Vec` of
/// [`SPLIT_PERIPHERALS_NUM`] entries.
#[verifier::external_body]
pub struct PendingLinks {
    inner: heapless::Vec<(usize, [u8; 6]), SPLIT_PERIPHERALS_NUM>,
}

/// The peripherals to connect: slot and address of each.
pub uninterp spec fn pending_links(p: PendingLinks) -> Seq<(usize, [u8; 6])>;

/// `heapless::Vec::new`: none.
#[verifier::external_body]
fn no_links() -> (r: PendingLinks)
    ensures
        pending_links(r) == Seq::<(usize, [u8; 6])>::empty(),
{
    PendingLinks { inner: heapless::Vec::new() }
}

/// `heapless::Vec::push`: one more at the end, or an error and no change where the
/// capacity is used up.
#[verifier::external_body]
fn push_link(p: &mut PendingLinks, link: (usize, [u8; 6])) -> (r: Result<(), ()>)
    ensures
        match r {
            Ok(()) => pending_links(*old(p)).len() < SPLIT_PERIPHERALS_NUM && pending_links(
                *final(p),
            ) == pending_links(*old(p)).push(link),
            Err(()) => pending_links(*old(p)).len() >= SPLIT_PERIPHERALS_NUM && pending_links(
                *final(p),
            ) == pending_links(*old(p)),
        },
{
    match p.inner.push(link) {
        Ok(()) => Ok(()),
        Err(_) => Err(()),
    }
}

/// `heapless::Vec::as_slice`: the entries.
#[verifier::external_body]
fn links_as_slice(p: &PendingLinks) -> (r: &[(usize, [u8; 6])])
    ensures
        r@ == pending_links(*p),
{
    p.inner.as_slice()
}

impl View for PendingLinks {
    type V = Seq<(usize, [u8; 6])>;

    open spec fn view(&self) -> Seq<(usize, [u8; 6])> {
        pending_links(*self)
    }
}

impl PendingLinks {
    pub fn as_slice(&self) -> (r: &[(usize, [u8; 6])])
        ensures
            r@ == self@,
    {
        links_as_slice(self)
    }
}

/// Slots with a known address and no session, in their order.
pub open spec fn disconnected(slots: Seq<SlotState>) -> Seq<(usize, [u8; 6])>
    decreases slots.len(),
{
    if slots.len() == 0 {
        Seq::empty()
    } else {
        let rest = disconnected(slots.drop_last());
        match slots.last() {
            SlotState::Disconnected(addr) => rest.push(((slots.len() - 1) as usize, addr)),
            _ => rest,
        }
    }
}

proof fn lemma_disconnected_len(slots: Seq<SlotState>)
    ensures
        disconnected(slots).len() <= slots.len(),
    decreases slots.len(),
{
    if slots.len() > 0 {
        lemma_disconnected_len(slots.drop_last());
    }
}

/// Every pending entry names its slot and that slot's address.
pub open spec fn pending_ok(slots: Seq<SlotState>, pending: Seq<(usize, [u8; 6])>) -> bool {
    forall|i: int|
        0 <= i < pending.len() ==> (#[trigger] pending[i]).0 < slots.len()
            && slots[pending[i].0 as int] == SlotState::Disconnected(pending[i].1)
}

proof fn lemma_pending_ok(slots: Seq<SlotState>, n: int)
    requires
        0 <= n <= slots.len(),
        slots.len() <= usize::MAX,
    ensures
        pending_ok(slots, disconnected(slots.subrange(0, n))),
    decreases n,
{
    if n > 0 {
        lemma_pending_ok(slots, n - 1);
        let p = slots.subrange(0, n);
        assert(p.drop_last() =~= slots.subrange(0, n - 1));
        assert(p.last() == slots[n - 1]);
    }
}

/// Whether some slot's address is unknown.
pub open spec fn any_unknown(slots: Seq<SlotState>) -> bool {
    exists|i: int| 0 <= i < slots.len() && #[trigger] slots[i] is NoAddr
}

/// What the radio does next.
pub enum RadioTask {
    /// The keyboard sleeps: look again later. Established links stay up.
    Sleep,
    /// Connect whichever of these answers first.
    Connect(PendingLinks),
    /// Scan for peripherals until one is found or a session ends.
    Scan,
    /// Fully linked: wait until a session ends.
    Park,
}

/// The central's peripherals.
pub struct LinkSlots {
    slots: [SlotState; SPLIT_PERIPHERALS_NUM],
}

impl View for LinkSlots {
    type V = Seq<SlotState>;

    closed spec fn view(&self) -> Seq<SlotState> {
        self.slots@
    }
}

impl LinkSlots {
    /// The slots at start: peripherals with a stored, valid address are to be
    /// connected, the others to be found.
    pub fn load(stored: &Vec<Option<PeerAddress>>) -> (r: Self)
        ensures
            r@.len() == SPLIT_PERIPHERALS_NUM,
            forall|i: int|
                0 <= i < SPLIT_PERIPHERALS_NUM ==> #[trigger] r@[i] == if i < stored@.len()
                    && stored@[i] is Some && stored@[i]->Some_0.is_valid {
                    SlotState::Disconnected(stored@[i]->Some_0.address)
                } else {
                    SlotState::NoAddr
                },
    {
        let mut slots = [SlotState::NoAddr;SPLIT_PERIPHERALS_NUM];
        let mut i: usize = 0;
        while i < SPLIT_PERIPHERALS_NUM && i < stored.len()
            invariant
                i <= SPLIT_PERIPHERALS_NUM,
                i <= stored@.len(),
                slots@.len() == SPLIT_PERIPHERALS_NUM,
                forall|j: int|
                    0 <= j < SPLIT_PERIPHERALS_NUM ==> #[trigger] slots@[j] == if j < i
                        && stored@[j] is Some && stored@[j]->Some_0.is_valid {
                        SlotState::Disconnected(stored@[j]->Some_0.address)
                    } else {
                        SlotState::NoAddr
                    },
            decreases SPLIT_PERIPHERALS_NUM - i,
        {
            if let Some(peer) = &stored[i] {
                if peer.is_valid {
                    slots[i] = SlotState::Disconnected(peer.address);
                }
            }
            i = i + 1;
        }
        LinkSlots { slots }
    }

    /// The session of peripheral `id` ended: it is to be connected again.
    pub fn session_ended(&mut self, id: usize)
        requires
            id < SPLIT_PERIPHERALS_NUM,
        ensures
            final(self)@ == match old(self)@[id as int] {
                SlotState::Connected(addr) => old(self)@.update(
                    id as int,
                    SlotState::Disconnected(addr),
                ),
                _ => old(self)@,
            },
    {
        if let SlotState::Connected(addr) = self.slots[id] {
            self.slots[id] = SlotState::Disconnected(addr);
        }
    }

    fn pending(&self) -> (r: PendingLinks)
        ensures
            r@ == disconnected(self@),
    {
        let mut p = no_links();
        let mut i: usize = 0;
        assert(self@.subrange(0, 0) =~= Seq::<SlotState>::empty());
        while i < SPLIT_PERIPHERALS_NUM
            invariant
                i <= SPLIT_PERIPHERALS_NUM,
                self@.len() == SPLIT_PERIPHERALS_NUM,
                p@ == disconnected(self@.subrange(0, i as int)),
            decreases SPLIT_PERIPHERALS_NUM - i,
        {
            proof {
                let q = self@.subrange(0, i + 1);
                assert(q.drop_last() =~= self@.subrange(0, i as int));
                assert(q.last() == self@[i as int]);
                lemma_disconnected_len(self@.subrange(0, i as int));
            }
            if let SlotState::Disconnected(addr) = self.slots[i] {
                let pushed = push_link(&mut p, (i, addr));
                assert(pushed is Ok);
            }
            i = i + 1;
        }
        assert(self@.subrange(0, i as int) =~= self@);
        p
    }

    fn has_unknown(&self) -> (r: bool)
        ensures
            r == any_unknown(self@),
    {
        let mut i: usize = 0;
        while i < SPLIT_PERIPHERALS_NUM
            invariant
                i <= SPLIT_PERIPHERALS_NUM,
                forall|j: int| 0 <= j < i ==> !(#[trigger] self@[j] is NoAddr),
            decreases SPLIT_PERIPHERALS_NUM - i,
        {
            if let SlotState::NoAddr = self.slots[i] {
                assert(self@[i as int] is NoAddr);
                return true;
            }
            i = i + 1;
        }
        false
    }

    /// What the radio does next. Peripherals that can be connected come first,
    /// then those that have to be found.
    pub fn scan_and_connect_peripherals(&self, sleeping: bool) -> (r: RadioTask)
        ensures
            match r {
                RadioTask::Sleep => sleeping,
                RadioTask::Connect(p) => {
                    &&& !sleeping
                    &&& p@ == disconnected(self@)
                    &&& p@.len() > 0
                    &&& pending_ok(self@, p@)
                },
                RadioTask::Scan => !sleeping && disconnected(self@).len() == 0 && any_unknown(
                    self@,
                ),
                RadioTask::Park => !sleeping && disconnected(self@).len() == 0 && !any_unknown(
                    self@,
                ),
            },
    {
        if sleeping {
            return RadioTask::Sleep;
        }
        let p = self.pending();
        if p.as_slice().len() > 0 {
            proof {
                lemma_pending_ok(self@, SPLIT_PERIPHERALS_NUM as int);
                assert(self@.subrange(0, SPLIT_PERIPHERALS_NUM as int) =~= self@);
            }
            RadioTask::Connect(p)
        } else if self.has_unknown() {
            RadioTask::Scan
        } else {
            RadioTask::Park
        }
    }

    /// A connect succeeded with `peer`. The slot whose session takes the link: the
    /// first pending one with that address, which now is connected. A peer that
    /// matches none has no session.
    pub fn connected(&mut self, pending: &PendingLinks, peer: &Address) -> (r: Option<usize>)
        requires
            pending_ok(old(self)@, pending@),
        ensures
            match r {
                Some(id) => exists|i: int|
                    {
                        &&& 0 <= i < pending@.len()
                        &&& (#[trigger] pending@[i]).0 == id
                        &&& is_peer(pending@[i].1, *peer)
                        &&& forall|j: int|
                            0 <= j < i ==> !is_peer((#[trigger] pending@[j]).1, *peer)
                        &&& final(self)@ == old(self)@.update(
                            id as int,
                            SlotState::Connected(pending@[i].1),
                        )
                    },
                None => {
                    &&& forall|i: int|
                        0 <= i < pending@.len() ==> !is_peer((#[trigger] pending@[i]).1, *peer)
                    &&& final(self)@ == old(self)@
                },
            },
    {
        let list = pending.as_slice();
        let mut i: usize = 0;
        while i < list.len()
            invariant
                list@ == pending@,
                i <= list@.len(),
                pending_ok(old(self)@, pending@),
                *self == *old(self),
                forall|j: int| 0 <= j < i ==> !is_peer((#[trigger] pending@[j]).1, *peer),
            decreases list@.len() - i,
        {
            let (id, addr) = list[i];
            assert(pending@[i as int] == (id, addr));
            if Address::random(addr).same(peer) {
                assert(old(self)@.len() == SPLIT_PERIPHERALS_NUM);
                self.slots[id] = SlotState::Connected(addr);
                assert(is_peer(pending@[i as int].1, *peer));
                return Some(id);
            }
            i = i + 1;
        }
        None
    }

    /// None of the pending peripherals answered: forget their addresses and find
    /// them again when they come back.
    pub fn connect_timed_out(&mut self, pending: &PendingLinks)
        requires
            pending_ok(old(self)@, pending@),
        ensures
            final(self)@.len() == old(self)@.len(),
            forall|id: int|
                0 <= id < old(self)@.len() ==> #[trigger] final(self)@[id] == if is_pending(
                    pending@,
                    id,
                ) {
                    SlotState::NoAddr
                } else {
                    old(self)@[id]
                },
    {
        let list = pending.as_slice();
        let mut i: usize = 0;
        while i < list.len()
            invariant
                list@ == pending@,
                i <= list@.len(),
                pending_ok(old(self)@, pending@),
                self@.len() == old(self)@.len(),
                old(self)@.len() == SPLIT_PERIPHERALS_NUM,
                forall|id: int|
                    0 <= id < self@.len() ==> #[trigger] self@[id] == if is_pending(
                        pending@.subrange(0, i as int),
                        id,
                    ) {
                        SlotState::NoAddr
                    } else {
                        old(self)@[id]
                    },
            decreases list@.len() - i,
        {
            let (id, addr) = list[i];
            assert(pending@[i as int] == (id, addr));
            proof {
                let p = pending@.subrange(0, i as int);
                let q = pending@.subrange(0, i + 1);
                assert forall|n: int| #[trigger] is_pending(q, n) == (is_pending(p, n) || n == id) by {
                    if is_pending(p, n) {
                        let k = choose|k: int| 0 <= k < p.len() && (#[trigger] p[k]).0 == n;
                        assert(q[k].0 == n);
                    }
                    if n == id {
                        assert(q[i as int].0 == n);
                    }
                    if is_pending(q, n) && n != id {
                        let k = choose|k: int| 0 <= k < q.len() && (#[trigger] q[k]).0 == n;
                        assert(p[k].0 == n);
                    }
                }
            }
            self.slots[id] = SlotState::NoAddr;
            i = i + 1;
        }
        assert(pending@.subrange(0, i as int) =~= pending@);
    }

    /// A scan found peripheral `id`. The first address seen for a slot is kept and
    /// stored; the id comes off the air, and an occupied slot is cleared only when
    /// connecting to it times out.
    pub fn found(&mut self, id: u8, addr: [u8; 6]) -> (r: Option<PeerAddress>)
        ensures
            if id < SPLIT_PERIPHERALS_NUM && old(self)@[id as int] is NoAddr {
                &&& r == Some(PeerAddress { peer_id: id, is_valid: true, address: addr })
                &&& final(self)@ == old(self)@.update(id as int, SlotState::Disconnected(addr))
            } else {
                r is None && final(self)@ == old(self)@
            },
    {
        if (id as usize) < SPLIT_PERIPHERALS_NUM {
            if let SlotState::NoAddr = self.slots[id as usize] {
                self.slots[id as usize] = SlotState::Disconnected(addr);
                return Some(PeerAddress::new(id, true, addr));
            }
        }
        None
    }
}

/// Whether a slot's address, a random one, is the peer's.
pub open spec fn is_peer(addr: [u8; 6], peer: Address) -> bool {
    Address { kind: ADDR_KIND_RANDOM, addr }.names(peer)
}

/// Whether a slot is among the pending ones.
pub open spec fn is_pending(pending: Seq<(usize, [u8; 6])>, id: int) -> bool {
    exists|i: int| 0 <= i < pending.len() && (#[trigger] pending[i]).0 == id
}

/// What an advertisement says, as far as this keyboard knows it.
#[derive(Clone, Copy, Debug, PartialEq, Eq, Structural)]
pub enum Adv {
    SplitPeripheral { id: u8 },
    DongleSeeking,
    Other,
}

/// The first split peripheral among some advertisements.
pub open spec fn first_peripheral(reports: Seq<(Adv, [u8; 6])>) -> Option<(u8, [u8; 6])>
    decreases reports.len(),
{
    if reports.len() == 0 {
        None
    } else {
        match reports[0].0 {
            Adv::SplitPeripheral { id } => Some((id, reports[0].1)),
            _ => first_peripheral(reports.drop_first()),
        }
    }
}

/// Handles the reports of a scan.
pub fn on_adv_reports(reports: &Vec<(Adv, [u8; 6])>) -> (r: Option<(u8, [u8; 6])>)
    ensures
        r == first_peripheral(reports@),
{
    let mut i: usize = 0;
    assert(reports@.subrange(0, reports@.len() as int) =~= reports@);
    while i < reports.len()
        invariant
            i <= reports@.len(),
            first_peripheral(reports@) == first_peripheral(
                reports@.subrange(i as int, reports@.len() as int),
            ),
        decreases reports@.len() - i,
    {
        proof {
            let t = reports@.subrange(i as int, reports@.len() as int);
            assert(t[0] == reports@[i as int]);
            assert(t.drop_first() =~= reports@.subrange(i + 1, reports@.len() as int));
        }
        let (adv, addr) = reports[i];
        if let Adv::SplitPeripheral { id } = adv {
            return Some((id, addr));
        }
        i = i + 1;
    }
    None
}

// ---------------------------------------------------------------------------
// Messages over the link
// ---------------------------------------------------------------------------

/// Whether a message from a peripheral counts as activity of the user.
pub fn is_activity(message: &SplitMessage) -> (r: bool)
    ensures
        r == (*message is Key || *message is Pointing),
{
    match message {
        SplitMessage::Key(_) => true,
        SplitMessage::Pointing(_) => true,
        _ => false,
    }
}

/// How a write to the peripheral's characteristic went.
#[derive(Clone, Copy, Debug, PartialEq, Eq, Structural)]
pub enum GattWrite {
    Written,
    /// The connection is gone.
    NotFound,
    /// Any other failure.
    Failed,
}

/// What a write means: only a connection that is gone is an error.
pub fn gatt_write_outcome(write: GattWrite, len: usize) -> (r: Result<usize, SplitDriverError>)
    ensures
        r == match write {
            GattWrite::NotFound => Err(SplitDriverError::Disconnected),
            GattWrite::Written | GattWrite::Failed => Ok(len),
        },
{
    match write {
        GattWrite::NotFound => Err(SplitDriverError::Disconnected),
        GattWrite::Written => Ok(len),
        GattWrite::Failed => Ok(len),
    }
}

// ---------------------------------------------------------------------------
// Link parameters
// ---------------------------------------------------------------------------

/// Parameters while the keyboard is in use.
pub fn default_central_conn_param() -> (r: ConnParams)
    ensures
        r == (ConnParams {
            min_interval_us: 7_500,
            max_interval_us: 7_500,
            max_latency: 300,
            supervision_timeout_us: 5_000_000,
        }),
        r.sound(),
{
    ConnParams {
        min_interval_us: 7_500,
        max_interval_us: 7_500,
        max_latency: 300,
        supervision_timeout_us: 5_000_000,
    }
}

/// Parameters for the central -> peripheral link while the central sleeps.
///
/// With a host connected, the central's radio is busy serving the host link
/// anyway, so keep a short interval: the first key after wake-up arrives quickly,
/// and the peripheral still saves power through its latency. With no host, a long
/// interval also cuts the central-side radio wakeups.
pub fn sleep_central_conn_param(host_connected: bool) -> (r: ConnParams)
    ensures
        r == if host_connected {
            ConnParams {
                min_interval_us: 20_000,
                max_interval_us: 20_000,
                max_latency: 200,
                supervision_timeout_us: 9_000_000,
            }
        } else {
            ConnParams {
                min_interval_us: 200_000,
                max_interval_us: 200_000,
                max_latency: 25,
                supervision_timeout_us: 11_000_000,
            }
        },
        r.sound(),
{
    if host_connected {
        ConnParams {
            min_interval_us: 20_000,
            max_interval_us: 20_000,
            max_latency: 200,
            supervision_timeout_us: 9_000_000,
        }
    } else {
        ConnParams {
            min_interval_us: 200_000,
            max_interval_us: 200_000,
            max_latency: 25,
            supervision_timeout_us: 11_000_000,
        }
    }
}

/// Connection interval of a subrated link.
pub const CONN_INTERVAL_US: u32 = 7_500;

pub const SLEEP_HOST_CONN_SUBRATE: u16 = 60;

pub const SLEEP_NO_HOST_SUBRATE: u16 = 125;

pub const DEFAULT_MAX_LATENCY: u16 = 300;

/// In some cases, the subrate request procedure does not complete with only one
/// continuation.
pub const SLEEP_CONTINUATION_NUMBER: u16 = 2;

/// Tries of a subrate request while the controller is busy, and the pause between
/// them.
pub const SUBRATE_TRIES: u32 = 10;

pub const SUBRATE_RETRY_MS: u64 = 100;

/// A subrate request.
#[derive(Clone, Copy, Debug, PartialEq, Eq, Structural)]
pub struct SubrateParams {
    pub subrate_min: u16,
    pub subrate_max: u16,
    pub max_latency: u16,
    pub continuation_number: u16,
    pub supervision_timeout_ms: u32,
}

impl SubrateParams {
    /// What the Bluetooth specification asks of a request: the product of subrate
    /// and latency is bounded, and half the supervision timeout covers it.
    pub open spec fn sound(self) -> bool {
        &&& self.subrate_min <= self.subrate_max
        &&& self.subrate_max * (self.max_latency + 1) <= 500
        &&& 2 * CONN_INTERVAL_US * self.subrate_max * (self.max_latency + 1)
            <= self.supervision_timeout_ms * 1000
    }
}

/// The largest latency that goes with a subrate.
pub fn calc_max_latency(subrate_max: u16) -> (r: u16)
    requires
        0 < subrate_max <= 500,
    ensures
        r == 500int / subrate_max as int - 1,
        subrate_max * (r + 1) <= 500,
{
    proof {
        assert(1 <= 500int / subrate_max as int <= 500 && subrate_max * (500int / subrate_max as int)
            <= 500) by (nonlinear_arith)
            requires
                0 < subrate_max <= 500,
        ;
    }
    500 / subrate_max - 1
}

/// The least supervision timeout of a subrated link, with two connection intervals
/// to spare.
pub open spec fn min_timeout_ms(max_latency: u16, subrate_factor: u16) -> int {
    (2 * (1 + max_latency) * (subrate_factor * CONN_INTERVAL_US) + CONN_INTERVAL_US * 2) / 1_000
}

/// The least supervision timeout of a subrated link, as far as it can be counted in
/// microseconds with 32 bits.
pub fn calc_min_timeout_ms(max_latency: u16, subrate_factor: u16) -> (r: u32)
    requires
        15_000 * (subrate_factor * (max_latency + 1)) + 15_000 <= u32::MAX,
    ensures
        r == min_timeout_ms(max_latency, subrate_factor),
{
    let latency: u32 = 1 + max_latency as u32;
    let factor: u32 = subrate_factor as u32;
    proof {
        assert(factor * 7_500 <= 491_512_500);
        assert(2 * latency * (factor * 7_500) == 15_000 * (factor * latency)) by (nonlinear_arith);
        assert(2 * latency <= 131_072);
    }
    let effective_interval_us: u32 = factor * CONN_INTERVAL_US;
    let required_timeout_us: u32 = 2 * latency * effective_interval_us;
    (required_timeout_us + CONN_INTERVAL_US * 2) / 1_000
}

proof fn lemma_timeout(max_latency: u16, subrate_factor: u16, product: int)
    requires
        product == subrate_factor * (max_latency + 1),
    ensures
        min_timeout_ms(max_latency, subrate_factor) == (15_000 * product + 15_000) / 1_000,
{
    assert(2 * (1 + max_latency) * (subrate_factor * 7_500) == 15_000 * (subrate_factor * (
    max_latency + 1))) by (nonlinear_arith);
}

proof fn lemma_sound_product(subrate: u16, max_latency: u16, product: int)
    requires
        product == subrate * (max_latency + 1),
    ensures
        2 * CONN_INTERVAL_US * subrate * (max_latency + 1) == 15_000 * product,
{
    assert(2 * 7_500int * subrate * (max_latency + 1) == 15_000 * (subrate * (max_latency + 1)))
        by (nonlinear_arith);
}

/// The request while the keyboard is in use.
pub fn default_central_subrate_params() -> (r: SubrateParams)
    ensures
        r == (SubrateParams {
            subrate_min: 1,
            subrate_max: 1,
            max_latency: DEFAULT_MAX_LATENCY,
            continuation_number: 0,
            supervision_timeout_ms: 4_530,
        }),
        r.sound(),
{
    let supervision_timeout_ms: u32 = calc_min_timeout_ms(DEFAULT_MAX_LATENCY, 1);
    proof {
        lemma_timeout(300, 1, 301);
        lemma_sound_product(1, 300, 301);
    }
    SubrateParams {
        subrate_min: 1,
        subrate_max: 1,
        max_latency: DEFAULT_MAX_LATENCY,
        continuation_number: 0,
        supervision_timeout_ms,
    }
}

/// The request while the keyboard sleeps.
pub fn sleep_central_subrate_params(host_connected: bool) -> (r: SubrateParams)
    ensures
        r == if host_connected {
            SubrateParams {
                subrate_min: 60,
                subrate_max: 60,
                max_latency: 7,
                continuation_number: SLEEP_CONTINUATION_NUMBER,
                supervision_timeout_ms: 7_215,
            }
        } else {
            SubrateParams {
                subrate_min: 125,
                subrate_max: 125,
                max_latency: 3,
                continuation_number: SLEEP_CONTINUATION_NUMBER,
                supervision_timeout_ms: 7_515,
            }
        },
        r.sound(),
{
    let subrate: u16 = if host_connected {
        SLEEP_HOST_CONN_SUBRATE
    } else {
        SLEEP_NO_HOST_SUBRATE
    };
    let max_latency: u16 = calc_max_latency(subrate);
    proof {
        assert(500int / 60 == 8 && 500int / 125 == 4);
        lemma_timeout(7, 60, 480);
        lemma_timeout(3, 125, 500);
        lemma_sound_product(60, 7, 480);
        lemma_sound_product(125, 3, 500);
    }
    let supervision_timeout_ms: u32 = calc_min_timeout_ms(max_latency, subrate);
    SubrateParams {
        subrate_min: subrate,
        subrate_max: subrate,
        max_latency,
        continuation_number: SLEEP_CONTINUATION_NUMBER,
        supervision_timeout_ms,
    }
}

/// How a subrate request went.
#[derive(Clone, Copy, Debug, PartialEq, Eq, Structural)]
pub enum SubrateReply {
    Accepted,
    /// The controller is busy, or runs another procedure on the link.
    Busy,
    Failed,
}

/// What follows.
#[derive(Clone, Copy, Debug, PartialEq, Eq, Structural)]
pub enum SubrateStep {
    /// The request is over; whether it was accepted.
    Done(bool),
    /// Wait and try again.
    Retry,
}

/// Decides on try number `attempt`, counted from zero. A connection runs one
/// link-layer control procedure at a time, so a busy controller is asked again.
pub fn update_subrate_factor(attempt: u32, reply: SubrateReply) -> (r: SubrateStep)
    ensures
        r == match reply {
            SubrateReply::Accepted => SubrateStep::Done(true),
            SubrateReply::Failed => SubrateStep::Done(false),
            SubrateReply::Busy => if attempt + 1 < SUBRATE_TRIES {
                SubrateStep::Retry
            } else {
                SubrateStep::Done(false)
            },
        },
{
    match reply {
        SubrateReply::Accepted => SubrateStep::Done(true),
        SubrateReply::Failed => SubrateStep::Done(false),
        SubrateReply::Busy => {
            if attempt < SUBRATE_TRIES - 1 {
                SubrateStep::Retry
            } else {
                SubrateStep::Done(false)
            }
        },
    }
}

/// Keeps one link's parameters in step with the keyboard's sleep state. What the
/// controller last accepted is remembered, so that a rejected update is tried
/// again on the next change.
#[derive(Clone, Copy, Debug, PartialEq, Eq, Structural)]
pub struct SleepFollower {
    /// Whether the link has the parameters of a sleeping keyboard.
    pub applied: bool,
}

impl SleepFollower {
    /// A new link has the parameters of a keyboard in use.
    pub fn new() -> (r: Self)
        ensures
            !r.applied,
    {
        SleepFollower { applied: false }
    }

    /// The parameters to apply for a sleep state, if they are not applied yet.
    pub fn follow_sleep_state(&self, sleeping: bool, host_connected: bool) -> (r: Option<
        ConnParams,
    >)
        ensures
            match r {
                None => sleeping == self.applied,
                Some(p) => sleeping != self.applied && if sleeping {
                    sleep_central_conn_param.ensures((host_connected,), p)
                } else {
                    default_central_conn_param.ensures((), p)
                },
            },
    {
        if sleeping == self.applied {
            return None;
        }
        if sleeping {
            Some(sleep_central_conn_param(host_connected))
        } else {
            Some(default_central_conn_param())
        }
    }

    /// An update was accepted, or was not.
    pub fn updated(&mut self, sleeping: bool, accepted: bool)
        ensures
            final(self).applied == if accepted {
                sleeping
            } else {
                old(self).applied
            },
    {
        if accepted {
            self.applied = sleeping;
        }
    }
}

// ---------------------------------------------------------------------------
// Laws
// ---------------------------------------------------------------------------

/// A present peripheral never waits for an absent one: every peripheral that can
/// be connected is among those that the radio connects to.
pub proof fn law_every_known_peripheral_is_tried(slots: Seq<SlotState>, id: int)
    requires
        0 <= id < slots.len() <= usize::MAX,
        slots[id] is Disconnected,
    ensures
        is_pending(disconnected(slots), id),
    decreases slots.len(),
{
    let p = slots.drop_last();
    if id < p.len() {
        law_every_known_peripheral_is_tried(p, id);
        let k = choose|k: int|
            0 <= k < disconnected(p).len() && (#[trigger] disconnected(p)[k]).0 == id;
        assert(disconnected(slots)[k].0 == id);
    } else {
        let last = disconnected(slots).len() - 1;
        assert(disconnected(slots)[last].0 == id);
    }
}

/// The radio connects to peripherals without a session only, each with the address that its
/// slot has, once, and in the order of their slots.
pub proof fn law_only_known_peripherals_are_tried(slots: Seq<SlotState>, i: int, j: int)
    requires
        slots.len() <= usize::MAX,
        0 <= i < disconnected(slots).len(),
    ensures
        disconnected(slots).len() <= slots.len(),
        disconnected(slots)[i].0 < slots.len(),
        slots[disconnected(slots)[i].0 as int] == SlotState::Disconnected(disconnected(slots)[i].1),
        i < j < disconnected(slots).len() ==> disconnected(slots)[i].0 < disconnected(slots)[j].0,
    decreases slots.len(),
{
    if slots.len() > 0 {
        let p = slots.drop_last();
        let rest = disconnected(p);
        let all = disconnected(slots);
        if i < rest.len() {
            law_only_known_peripherals_are_tried(p, i, j);
            assert(all[i] == rest[i]);
            assert(p[rest[i].0 as int] == slots[rest[i].0 as int]);
            if i < j < all.len() {
                if j < rest.len() {
                    assert(all[j] == rest[j]);
                }
            }
        } else {
            assert(all[i].0 == slots.len() - 1);
            if rest.len() > 0 {
                law_only_known_peripherals_are_tried(p, 0, 0);
            }
        }
    }
}

/// A scan takes the first split peripheral it hears, whatever else it hears before.
pub proof fn law_a_scan_takes_the_first_peripheral(reports: Seq<(Adv, [u8; 6])>, k: int, id: u8)
    requires
        0 <= k <= reports.len(),
        forall|i: int| 0 <= i < k ==> !((#[trigger] reports[i]).0 is SplitPeripheral),
    ensures
        k == reports.len() ==> first_peripheral(reports) is None,
        k < reports.len() && reports[k].0 == (Adv::SplitPeripheral { id }) ==> first_peripheral(
            reports,
        ) == Some((id, reports[k].1)),
    decreases k,
{
    if k > 0 {
        let t = reports.drop_first();
        assert(!(reports[0].0 is SplitPeripheral));
        assert forall|i: int| 0 <= i < k - 1 implies !((#[trigger] t[i]).0 is SplitPeripheral) by {
            assert(t[i] == reports[i + 1]);
        }
        if k < reports.len() {
            assert(t[k - 1] == reports[k]);
        }
        law_a_scan_takes_the_first_peripheral(t, k - 1, id);
    }
}

/// A slot's peripheral is told by all of its address, which is a random one: a public address
/// is never its.
pub proof fn law_a_peripheral_is_told_by_its_random_address(addr: [u8; 6], peer: Address)
    requires
        peer.kind <= 3,
    ensures
        is_peer(addr, peer) <==> addr@ == peer.addr@ && (peer.kind == 1 || peer.kind == 3),
{
}

/// The least supervision timeout covers twice the time that a peripheral may stay silent, and
/// two more connection intervals of 7.5 milliseconds, in whole milliseconds.
pub proof fn law_the_least_timeout_covers_the_silence(max_latency: u16, subrate_factor: u16)
    ensures
        1000 * min_timeout_ms(max_latency, subrate_factor) <= 15_000 * ((1 + max_latency)
            * subrate_factor) + 15_000 < 1000 * (min_timeout_ms(max_latency, subrate_factor) + 1),
{
    assert(2 * (1 + max_latency) * (subrate_factor * CONN_INTERVAL_US) == 15_000 * ((1
        + max_latency) * subrate_factor)) by (nonlinear_arith)
        requires
            CONN_INTERVAL_US == 7_500,
    ;
}

/// A write to the peripheral fails only where it has no such characteristic; otherwise it counts
/// as the whole message.
pub proof fn law_only_a_missing_characteristic_fails_a_write(
    write: GattWrite,
    len: usize,
    r: Result<usize, SplitDriverError>,
)
    requires
        gatt_write_outcome.ensures((write, len), r),
    ensures
        r is Err <==> write is NotFound,
        r matches Ok(n) ==> n == len,
        r matches Err(e) ==> e is Disconnected,
{
}

/// The latency is the largest with which the peripheral is heard within 500 connection events.
pub proof fn law_the_latency_is_the_largest_that_fits(subrate_max: u16, r: u16)
    requires
        0 < subrate_max <= 500,
        calc_max_latency.ensures((subrate_max,), r),
    ensures
        subrate_max * (r + 1) <= 500,
        subrate_max * (r + 2) > 500,
{
    assert(subrate_max * (r + 2) > 500) by (nonlinear_arith)
        requires
            0 < subrate_max <= 500,
            r == 500int / subrate_max as int - 1,
    ;
}

/// A subrate request succeeds where it is accepted, is tried again only while the controller is
/// busy, and ten times at most.
pub proof fn law_a_busy_controller_is_asked_ten_times(
    attempt: u32,
    reply: SubrateReply,
    r: SubrateStep,
)
    requires
        update_subrate_factor.ensures((attempt, reply), r),
    ensures
        r == SubrateStep::Done(true) <==> reply is Accepted,
        r is Retry <==> reply is Busy && attempt < 9,
{
}

/// The parameters are asked for where the sleep state differs from the one that they were last
/// set for.
pub proof fn law_parameters_follow_the_sleep_state(
    follower: SleepFollower,
    sleeping: bool,
    host_connected: bool,
    r: Option<ConnParams>,
)
    requires
        SleepFollower::follow_sleep_state.ensures((&follower, sleeping, host_connected), r),
    ensures
        r is Some <==> sleeping != follower.applied,
{
}

} // verus!
