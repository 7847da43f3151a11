//! Battery levels over GATT: of the keyboard itself and of its peripherals.

use vstd::prelude::*;
use crate::time::{Duration, Instant, TICK_HZ};
use crate::types::BatteryStatus;

verus! {

pub const CHARACTERISTIC_PRESENTATION_FORMAT_UINT8: u8 = 0x04;

pub const CHARACTERISTIC_PRESENTATION_FORMAT_EXPONENT_ZERO: u8 = 0x00;

pub const CHARACTERISTIC_PRESENTATION_FORMAT_UNIT_PERCENTAGE: u16 = 0x27AD;

pub const CHARACTERISTIC_PRESENTATION_FORMAT_NAMESPACE_BLUETOOTH_SIG: u8 = 0x01;

pub const CHARACTERISTIC_PRESENTATION_FORMAT_DESCRIPTION_MAIN: u16 = 0x0106;

/// How long the GATT server takes to start.
pub const GATT_SERVER_START_DELAY_SECS: u64 = 2;

/// How long the first report waits for a battery event.
pub const FIRST_BATTERY_REPORT_TIMEOUT_SECS: u64 = 30;

/// Time between two reports without activity.
pub const BATTERY_REPORT_INTERVAL_SECS: u64 = 1800;

/// Activity that is younger counts as recent.
pub const RECENT_ACTIVITY_THRESHOLD_SECS: u32 = 60;

// ---------------------------------------------------------------------------
// Presentation format
// ---------------------------------------------------------------------------

/// Low and high byte of a number.
pub open spec fn le_bytes(n: u16) -> Seq<u8> {
    seq![(n % 256) as u8, (n / 256) as u8]
}

/// A battery level's presentation format: an unsigned byte, no exponent, in
/// percent, with a description out of the Bluetooth namespace.
pub fn battery_presentation_format(description: u16) -> (r: [u8; 7])
    ensures
        r@ == seq![0x04u8, 0x00u8] + le_bytes(0x27AD) + seq![0x01u8] + le_bytes(description),
{
    let unit: u16 = CHARACTERISTIC_PRESENTATION_FORMAT_UNIT_PERCENTAGE;
    let r = [
        CHARACTERISTIC_PRESENTATION_FORMAT_UINT8,
        CHARACTERISTIC_PRESENTATION_FORMAT_EXPONENT_ZERO,
        (unit % 256) as u8,
        (unit / 256) as u8,
        CHARACTERISTIC_PRESENTATION_FORMAT_NAMESPACE_BLUETOOTH_SIG,
        (description % 256) as u8,
        (description / 256) as u8,
    ];
    assert(r@ =~= seq![0x04u8, 0x00u8] + le_bytes(0x27AD) + seq![0x01u8] + le_bytes(description));
    r
}

/// The presentation format of a peripheral's battery: its description is the
/// peripheral's number, counted from one.
pub fn peripheral_battery_presentation_format(peripheral_id: usize) -> (r: [u8; 7])
    requires
        peripheral_id < 65535,
    ensures
        r@ == seq![0x04u8, 0x00u8] + le_bytes(0x27AD) + seq![0x01u8] + le_bytes(
            (peripheral_id + 1) as u16,
        ),
{
    battery_presentation_format((peripheral_id + 1) as u16)
}

// ---------------------------------------------------------------------------
// When a report goes out
// ---------------------------------------------------------------------------

#[derive(Clone, Copy, Debug, PartialEq, Eq, Structural)]
pub enum BatteryReportDecision {
    Notify,
    Drop,
}

/// What a report waits for.
#[derive(Clone, Copy, Debug, PartialEq, Eq, Structural)]
pub enum ReportGate {
    Decided(BatteryReportDecision),
    /// Wait for activity, or for the timeout where it has not passed.
    AwaitActivity { until_timeout: bool },
}

/// What holds a report back, before activity is looked at: once the timeout has
/// passed, an awake keyboard reports.
pub fn report_gate(now: Instant, timeout_at: Instant, sleeping: bool) -> (r: ReportGate)
    ensures
        r == if now.ticks < timeout_at.ticks {
            ReportGate::AwaitActivity { until_timeout: true }
        } else if sleeping {
            ReportGate::AwaitActivity { until_timeout: false }
        } else {
            ReportGate::Decided(BatteryReportDecision::Notify)
        },
{
    let passed = now.ticks >= timeout_at.ticks;
    if !sleeping && passed {
        ReportGate::Decided(BatteryReportDecision::Notify)
    } else {
        ReportGate::AwaitActivity { until_timeout: !passed }
    }
}

/// The decision on activity at second `activity`: none while the keyboard sleeps,
/// else to notify where the activity is recent and to drop the event where it is
/// not.
pub fn report_on_activity(sleeping: bool, now_secs: u32, activity: u32) -> (r: Option<
    BatteryReportDecision,
>)
    ensures
        r == if sleeping {
            None
        } else if now_secs - activity < RECENT_ACTIVITY_THRESHOLD_SECS {
            Some(BatteryReportDecision::Notify)
        } else {
            Some(BatteryReportDecision::Drop)
        },
{
    if sleeping {
        return None;
    }
    let age: u32 = if now_secs >= activity {
        now_secs - activity
    } else {
        0
    };
    if age < RECENT_ACTIVITY_THRESHOLD_SECS {
        Some(BatteryReportDecision::Notify)
    } else {
        Some(BatteryReportDecision::Drop)
    }
}

/// Whether a report of the peripherals' batteries has to wait for activity: as long
/// as the keyboard sleeps. Being awake is enough; the activity need not be recent.
pub fn wait_until_awake(sleeping: bool) -> (r: bool)
    ensures
        r == sleeping,
{
    sleeping
}

// ---------------------------------------------------------------------------
// The keyboard's own battery
// ---------------------------------------------------------------------------

/// What the reporter waits for.
#[derive(Clone, Copy, Debug, PartialEq, Eq, Structural)]
pub enum BatteryWait {
    /// A battery event, or the deadline of the first report.
    StatusUntil(Instant),
    /// The keyboard to be awake, or a battery event.
    AwakeOrStatus,
    /// A battery event.
    Status,
    /// The decision on the next report, which is due at that time, or a battery
    /// event.
    DecisionOrStatus(Instant),
}

/// What it got.
#[derive(Clone, Copy, Debug, PartialEq, Eq, Structural)]
pub enum BatteryInput {
    Status(BatteryStatus),
    DeadlinePassed,
    Awake,
    Decided(BatteryReportDecision),
}

/// What is to be done.
#[derive(Clone, Copy, Debug, PartialEq, Eq, Structural)]
pub enum BatteryStep {
    Nothing,
    /// Store a level for reads, without a notification.
    Store(u8),
    /// Hand the events that wait to [`BatteryReporter::notify_latest`].
    NotifyLatest,
}

/// Reports the keyboard's own battery. The first report may wait for a battery
/// event until its deadline. Once a value is available, it is stored for reads
/// while asleep, and only the notification waits until the keyboard wakes.
#[derive(Clone, Copy, Debug, PartialEq, Eq, Structural)]
pub struct BatteryReporter {
    pub pending_status: Option<BatteryStatus>,
    pub first_report_deadline: Option<Instant>,
    pub next_timeout: Instant,
}

pub open spec fn in_secs(now: Instant, secs: u64) -> Instant {
    Instant { ticks: (now.ticks + secs * TICK_HZ) as u64 }
}

/// A clock reading that leaves room for the times set from it.
pub open spec fn clock_ok(now: Instant) -> bool {
    now.ticks + BATTERY_REPORT_INTERVAL_SECS * TICK_HZ <= u64::MAX
}

/// Storing a level, where there is one.
pub open spec fn stored(status: BatteryStatus) -> BatteryStep {
    match status.spec_level() {
        Some(level) => BatteryStep::Store(level),
        None => BatteryStep::Nothing,
    }
}

/// What a battery event stores for reads.
pub fn update_battery_value(status: BatteryStatus) -> (r: BatteryStep)
    ensures
        r == stored(status),
{
    match status.level() {
        Some(level) => BatteryStep::Store(level),
        None => BatteryStep::Nothing,
    }
}

/// The reporter and what is to be done after an input. An input that the reporter
/// does not wait for changes nothing.
pub open spec fn reported(s: BatteryReporter, input: BatteryInput) -> (
    BatteryReporter,
    BatteryStep,
) {
    match input {
        BatteryInput::Status(status) => (
            BatteryReporter {
                pending_status: if s.first_report_deadline is Some && s.pending_status is None
                    && status.spec_level() is None {
                    None
                } else {
                    Some(status)
                },
                ..s
            },
            stored(status),
        ),
        BatteryInput::DeadlinePassed => if s.pending_status is None {
            (BatteryReporter { first_report_deadline: None, ..s }, BatteryStep::Nothing)
        } else {
            (s, BatteryStep::Nothing)
        },
        BatteryInput::Awake => if s.first_report_deadline is Some && s.pending_status is Some {
            (s, BatteryStep::NotifyLatest)
        } else {
            (s, BatteryStep::Nothing)
        },
        BatteryInput::Decided(decision) => if s.first_report_deadline is None
            && s.pending_status is Some {
            match decision {
                BatteryReportDecision::Notify => (s, BatteryStep::NotifyLatest),
                BatteryReportDecision::Drop => (
                    BatteryReporter { pending_status: None, ..s },
                    BatteryStep::Nothing,
                ),
            }
        } else {
            (s, BatteryStep::Nothing)
        },
    }
}

/// The last level among some events.
pub open spec fn last_level(waiting: Seq<BatteryStatus>) -> Option<u8>
    decreases waiting.len(),
{
    if waiting.len() == 0 {
        None
    } else {
        match waiting.last().spec_level() {
            Some(level) => Some(level),
            None => last_level(waiting.drop_last()),
        }
    }
}

/// What the events that wait store for reads, once they are all taken in: the last level
/// among them, if there is any.
pub fn level_to_store(waiting: &Vec<BatteryStatus>) -> (r: Option<u8>)
    ensures
        r == last_level(waiting@),
{
    let mut n: usize = waiting.len();
    assert(waiting@.subrange(0, n as int) =~= waiting@);
    while n > 0
        invariant
            n <= waiting@.len(),
            last_level(waiting@) == last_level(waiting@.subrange(0, n as int)),
        decreases n,
    {
        let ghost here = waiting@.subrange(0, n as int);
        assert(here.drop_last() =~= waiting@.subrange(0, n - 1));
        if let Some(level) = waiting[n - 1].level() {
            return Some(level);
        }
        n = n - 1;
    }
    None
}

impl BatteryReporter {
    /// The reporter once the GATT server runs. A level that is known already is
    /// stored, and reported first.
    pub fn new(cached: BatteryStatus, now: Instant) -> (r: (Self, BatteryStep))
        requires
            clock_ok(now),
        ensures
            r.0 == (BatteryReporter {
                pending_status: if cached.spec_level() is Some {
                    Some(cached)
                } else {
                    None
                },
                first_report_deadline: Some(in_secs(now, FIRST_BATTERY_REPORT_TIMEOUT_SECS)),
                next_timeout: in_secs(now, BATTERY_REPORT_INTERVAL_SECS),
            }),
            r.1 == stored(cached),
    {
        let pending_status = match cached.level() {
            Some(_) => Some(cached),
            None => None,
        };
        (
            BatteryReporter {
                pending_status,
                first_report_deadline: Some(
                    now.after(Duration::from_secs(FIRST_BATTERY_REPORT_TIMEOUT_SECS)),
                ),
                next_timeout: now.after(Duration::from_secs(BATTERY_REPORT_INTERVAL_SECS)),
            },
            update_battery_value(cached),
        )
    }

    /// What the reporter waits for.
    pub fn wait(&self) -> (r: BatteryWait)
        ensures
            r == match (self.first_report_deadline, self.pending_status) {
                (Some(deadline), None) => BatteryWait::StatusUntil(deadline),
                (Some(_), Some(_)) => BatteryWait::AwakeOrStatus,
                (None, None) => BatteryWait::Status,
                (None, Some(_)) => BatteryWait::DecisionOrStatus(self.next_timeout),
            },
    {
        match self.first_report_deadline {
            Some(deadline) => match self.pending_status {
                None => BatteryWait::StatusUntil(deadline),
                Some(_) => BatteryWait::AwakeOrStatus,
            },
            None => match self.pending_status {
                None => BatteryWait::Status,
                Some(_) => BatteryWait::DecisionOrStatus(self.next_timeout),
            },
        }
    }

    /// Takes in what came.
    pub fn step(&mut self, input: BatteryInput) -> (r: BatteryStep)
        ensures
            (*final(self), r) == reported(*old(self), input),
    {
        match input {
            BatteryInput::Status(status) => {
                let first = self.first_report_deadline.is_some() && self.pending_status.is_none();
                if !first || status.level().is_some() {
                    self.pending_status = Some(status);
                }
                update_battery_value(status)
            },
            BatteryInput::DeadlinePassed => {
                if self.pending_status.is_none() {
                    self.first_report_deadline = None;
                }
                BatteryStep::Nothing
            },
            BatteryInput::Awake => {
                if self.first_report_deadline.is_some() && self.pending_status.is_some() {
                    BatteryStep::NotifyLatest
                } else {
                    BatteryStep::Nothing
                }
            },
            BatteryInput::Decided(decision) => {
                if self.first_report_deadline.is_some() || self.pending_status.is_none() {
                    return BatteryStep::Nothing;
                }
                match decision {
                    BatteryReportDecision::Notify => BatteryStep::NotifyLatest,
                    BatteryReportDecision::Drop => {
                        self.pending_status = None;
                        BatteryStep::Nothing
                    },
                }
            },
        }
    }

    /// The notification goes out: of the events that wait only the last counts,
    /// before the pending one. What they store for reads is [`level_to_store`]'s. The level to notify, if the event has one. The next
    /// report is due an interval after `now`.
    pub fn notify_latest(&mut self, waiting: &Vec<BatteryStatus>, now: Instant) -> (r: Option<u8>)
        requires
            clock_ok(now),
            old(self).pending_status is Some,
        ensures
            r == if waiting@.len() > 0 {
                waiting@.last().spec_level()
            } else {
                old(self).pending_status->Some_0.spec_level()
            },
            *final(self) == (BatteryReporter {
                pending_status: None,
                first_report_deadline: None,
                next_timeout: in_secs(now, BATTERY_REPORT_INTERVAL_SECS),
            }),
    {
        let n: usize = waiting.len();
        let latest = if n > 0 {
            Some(waiting[n - 1])
        } else {
            self.pending_status
        };
        self.pending_status = None;
        self.first_report_deadline = None;
        self.next_timeout = now.after(Duration::from_secs(BATTERY_REPORT_INTERVAL_SECS));
        match latest {
            Some(status) => status.level(),
            None => None,
        }
    }
}

// ---------------------------------------------------------------------------
// The peripherals' batteries
// ---------------------------------------------------------------------------

/// The place of a peripheral among the configured ones; their number where it is
/// none of them.
pub open spec fn slot_of(ids: Seq<usize>, id: usize) -> int
    decreases ids.len(),
{
    if ids.len() == 0 || ids[0] == id {
        0
    } else {
        1 + slot_of(ids.drop_first(), id)
    }
}

proof fn lemma_slot_of(ids: Seq<usize>, id: usize, k: int)
    requires
        0 <= k <= ids.len(),
        forall|j: int| 0 <= j < k ==> ids[j] != id,
        k < ids.len() ==> ids[k] == id,
    ensures
        slot_of(ids, id) == k,
    decreases k,
{
    if k > 0 {
        let t = ids.drop_first();
        assert forall|j: int| 0 <= j < k - 1 implies t[j] != id by {
            assert(ids[j + 1] != id);
        }
        lemma_slot_of(t, id, k - 1);
    }
}

pub fn find_peripheral_battery_slot(configured_ids: &[usize], peripheral_id: usize) -> (r: Option<
    usize,
>)
    ensures
        match r {
            Some(k) => k < configured_ids@.len() && k == slot_of(configured_ids@, peripheral_id)
                && configured_ids@[k as int] == peripheral_id,
            None => slot_of(configured_ids@, peripheral_id) == configured_ids@.len()
                && !configured_ids@.contains(peripheral_id),
        },
{
    let mut i: usize = 0;
    while i < configured_ids.len()
        invariant
            i <= configured_ids@.len(),
            forall|j: int| 0 <= j < i ==> configured_ids@[j] != peripheral_id,
        decreases configured_ids@.len() - i,
    {
        if configured_ids[i] == peripheral_id {
            proof {
                lemma_slot_of(configured_ids@, peripheral_id, i as int);
            }
            return Some(i);
        }
        i = i + 1;
    }
    proof {
        lemma_slot_of(configured_ids@, peripheral_id, i as int);
    }
    None
}

/// What comes out of the queue of peripheral battery events.
#[derive(Clone, Copy, Debug, PartialEq, Eq, Structural)]
pub enum PeripheralBatteryInput {
    Message { id: usize, state: BatteryStatus },
    /// Events were lost.
    Lagged,
}

/// What is to be stored for reads.
#[derive(Clone, Copy, Debug, PartialEq, Eq, Structural)]
pub enum PeripheralStore {
    Nothing,
    /// The level of one slot.
    Level { slot: usize, level: u8 },
    /// The current level of every slot that has one.
    All,
}

/// Takes in an event: its slot is to be reported, and its level stored. Where
/// events were lost, every slot is.
pub fn handle_peripheral_battery_event(
    configured_ids: &[usize],
    pending_slots: &mut Vec<bool>,
    input: PeripheralBatteryInput,
) -> (r: PeripheralStore)
    requires
        old(pending_slots)@.len() == configured_ids@.len(),
    ensures
        final(pending_slots)@.len() == configured_ids@.len(),
        match input {
            PeripheralBatteryInput::Message { id, state } => {
                let slot = slot_of(configured_ids@, id);
                if slot < configured_ids@.len() {
                    &&& final(pending_slots)@ == old(pending_slots)@.update(slot, true)
                    &&& r == match state.spec_level() {
                        Some(level) => PeripheralStore::Level { slot: slot as usize, level },
                        None => PeripheralStore::Nothing,
                    }
                } else {
                    final(pending_slots)@ == old(pending_slots)@ && r == PeripheralStore::Nothing
                }
            },
            PeripheralBatteryInput::Lagged => {
                &&& forall|i: int|
                    0 <= i < final(pending_slots)@.len() ==> #[trigger] final(pending_slots)@[i]
                &&& r == PeripheralStore::All
            },
        },
{
    match input {
        PeripheralBatteryInput::Message { id, state } => match find_peripheral_battery_slot(
            configured_ids,
            id,
        ) {
            None => PeripheralStore::Nothing,
            Some(slot) => {
                pending_slots.set(slot, true);
                match state.level() {
                    Some(level) => PeripheralStore::Level { slot, level },
                    None => PeripheralStore::Nothing,
                }
            },
        },
        PeripheralBatteryInput::Lagged => {
            let n: usize = pending_slots.len();
            let mut i: usize = 0;
            while i < n
                invariant
                    i <= n,
                    n == pending_slots@.len(),
                    n == configured_ids@.len(),
                    forall|j: int| 0 <= j < i ==> #[trigger] pending_slots@[j],
                decreases n - i,
            {
                pending_slots.set(i, true);
                i = i + 1;
            }
            PeripheralStore::All
        },
    }
}

/// The levels to store for reads: that of every slot whose level is known.
pub open spec fn known_levels(statuses: Seq<Option<BatteryStatus>>) -> Seq<(usize, u8)>
    decreases statuses.len(),
{
    if statuses.len() == 0 {
        Seq::empty()
    } else {
        let rest = known_levels(statuses.drop_last());
        match level_of(statuses.last()) {
            Some(level) => rest.push(((statuses.len() - 1) as usize, level)),
            None => rest,
        }
    }
}

pub open spec fn level_of(status: Option<BatteryStatus>) -> Option<u8> {
    match status {
        Some(s) => s.spec_level(),
        None => None,
    }
}

fn level_in(status: Option<BatteryStatus>) -> (r: Option<u8>)
    ensures
        r == level_of(status),
{
    match status {
        Some(s) => s.level(),
        None => None,
    }
}

/// The levels to store for reads, by slot. `statuses` holds the latest status of
/// each slot's peripheral.
pub fn initialize_peripheral_battery_levels(statuses: &Vec<Option<BatteryStatus>>) -> (r: Vec<
    (usize, u8),
>)
    ensures
        r@ == known_levels(statuses@),
{
    let mut out: Vec<(usize, u8)> = Vec::new();
    let mut i: usize = 0;
    assert(statuses@.subrange(0, 0) =~= Seq::<Option<BatteryStatus>>::empty());
    while i < statuses.len()
        invariant
            i <= statuses@.len(),
            out@ == known_levels(statuses@.subrange(0, i as int)),
        decreases statuses@.len() - i,
    {
        proof {
            let p = statuses@.subrange(0, i + 1);
            assert(p.drop_last() =~= statuses@.subrange(0, i as int));
            assert(p.last() == statuses@[i as int]);
        }
        if let Some(level) = level_in(statuses[i]) {
            out.push((i, level));
        }
        i = i + 1;
    }
    assert(statuses@.subrange(0, i as int) =~= statuses@);
    out
}

/// Reports the peripherals' batteries.
pub struct PeripheralBatteryReporter {
    /// The peripherals with a battery, by slot.
    pub ids: Vec<usize>,
    /// Slots that are to be reported.
    pub pending: Vec<bool>,
}

impl PeripheralBatteryReporter {
    pub open spec fn wf(&self) -> bool {
        self.pending@.len() == self.ids@.len()
    }

    /// The reporter once the GATT server runs: slots whose level is known are
    /// reported first.
    pub fn new(ids: Vec<usize>, statuses: &Vec<Option<BatteryStatus>>) -> (r: Self)
        requires
            statuses@.len() == ids@.len(),
        ensures
            r.wf(),
            r.ids == ids,
            forall|i: int|
                0 <= i < ids@.len() ==> #[trigger] r.pending@[i] == (level_of(statuses@[i])
                    is Some),
    {
        let mut pending: Vec<bool> = Vec::new();
        let mut i: usize = 0;
        while i < statuses.len()
            invariant
                i <= statuses@.len(),
                pending@.len() == i,
                forall|j: int|
                    0 <= j < i ==> #[trigger] pending@[j] == (level_of(statuses@[j]) is Some),
            decreases statuses@.len() - i,
        {
            pending.push(level_in(statuses[i]).is_some());
            i = i + 1;
        }
        PeripheralBatteryReporter { ids, pending }
    }

    /// Whether any slot is to be reported.
    pub fn has_pending(&self) -> (r: bool)
        ensures
            r == exists|i: int| 0 <= i < self.pending@.len() && #[trigger] self.pending@[i],
    {
        let mut i: usize = 0;
        while i < self.pending.len()
            invariant
                i <= self.pending@.len(),
                forall|j: int| 0 <= j < i ==> !#[trigger] self.pending@[j],
            decreases self.pending@.len() - i,
        {
            if self.pending[i] {
                assert(self.pending@[i as int]);
                return true;
            }
            i = i + 1;
        }
        false
    }

    /// Takes in an event.
    pub fn on_event(&mut self, input: PeripheralBatteryInput) -> (r: PeripheralStore)
        requires
            old(self).wf(),
        ensures
            final(self).wf(),
            final(self).ids == old(self).ids,
            match input {
                PeripheralBatteryInput::Message { id, state } => {
                    let slot = slot_of(old(self).ids@, id);
                    if slot < old(self).ids@.len() {
                        &&& final(self).pending@ == old(self).pending@.update(slot, true)
                        &&& r == match state.spec_level() {
                            Some(level) => PeripheralStore::Level { slot: slot as usize, level },
                            None => PeripheralStore::Nothing,
                        }
                    } else {
                        final(self).pending@ == old(self).pending@ && r == PeripheralStore::Nothing
                    }
                },
                PeripheralBatteryInput::Lagged => {
                    &&& forall|i: int|
                        0 <= i < final(self).pending@.len() ==> #[trigger] final(self).pending@[i]
                    &&& r == PeripheralStore::All
                },
            },
    {
        handle_peripheral_battery_event(self.ids.as_slice(), &mut self.pending, input)
    }

    /// Takes the next slot to report, from `from` on, with its peripheral, while the
    /// keyboard is awake. It is not pending any more, whether or not its level is
    /// known. `None` once there is none left, or the keyboard sleeps.
    pub fn next_report(&mut self, from: usize, sleeping: bool) -> (r: Option<(usize, usize)>)
        requires
            old(self).wf(),
        ensures
            final(self).wf(),
            final(self).ids == old(self).ids,
            match r {
                Some((slot, id)) => {
                    &&& !sleeping
                    &&& from <= slot < old(self).pending@.len()
                    &&& old(self).pending@[slot as int]
                    &&& forall|j: int| from <= j < slot ==> !#[trigger] old(self).pending@[j]
                    &&& id == old(self).ids@[slot as int]
                    &&& final(self).pending@ == old(self).pending@.update(slot as int, false)
                },
                None => {
                    &&& final(self).pending@ == old(self).pending@
                    &&& sleeping || forall|j: int|
                        from <= j < old(self).pending@.len() ==> !#[trigger] old(self).pending@[j]
                },
            },
    {
        if sleeping {
            return None;
        }
        let mut slot: usize = from;
        while slot < self.pending.len()
            invariant
                from <= slot,
                *self == *old(self),
                self.wf(),
                !sleeping,
                forall|j: int| from <= j < slot ==> !#[trigger] self.pending@[j],
            decreases self.pending@.len() - slot,
        {
            if self.pending[slot] {
                self.pending.set(slot, false);
                return Some((slot, self.ids[slot]));
            }
            slot = slot + 1;
        }
        None
    }
}

// ---------------------------------------------------------------------------
// Laws
// ---------------------------------------------------------------------------

/// Different peripherals have different descriptions.
pub proof fn law_descriptions_tell_peripherals_apart(a: usize, b: usize)
    requires
        a < 65535,
        b < 65535,
        le_bytes((a + 1) as u16) == le_bytes((b + 1) as u16),
    ensures
        a == b,
{
    let x = le_bytes((a + 1) as u16);
    let y = le_bytes((b + 1) as u16);
    assert(x[0] == y[0] && x[1] == y[1]);
}

/// Every level that comes in is stored for reads at once, whether or not it is
/// reported: only notifications wait.
pub proof fn law_every_level_is_stored_at_once(s: BatteryReporter, status: BatteryStatus)
    ensures
        status.spec_level() matches Some(level) ==> reported(s, BatteryInput::Status(status)).1
            == BatteryStep::Store(level),
        s.pending_status is Some ==> reported(
            s,
            BatteryInput::Status(status),
        ).0.pending_status == Some(status),
{
}

/// Two bytes, the low one first, tell their number.
pub proof fn law_two_bytes_tell_their_number(n: u16)
    ensures
        le_bytes(n).len() == 2,
        le_bytes(n)[0] + 256 * le_bytes(n)[1] == n,
{
}

/// A level that is known is reported; without one the first report goes on waiting until its
/// deadline. Once a report is pending, every event is.
pub proof fn law_a_known_level_is_pending(s: BatteryReporter, status: BatteryStatus)
    ensures
        ({
            let after = reported(s, BatteryInput::Status(status)).0;
            &&& status.spec_level() is Some ==> after.pending_status == Some(status)
            &&& s.first_report_deadline is None ==> after.pending_status == Some(status)
            &&& after.pending_status is None <==> status.spec_level() is None
                && s.first_report_deadline is Some && s.pending_status is None
            &&& after.first_report_deadline == s.first_report_deadline
            &&& after.next_timeout == s.next_timeout
            &&& status.spec_level() is None ==> reported(s, BatteryInput::Status(status)).1
                is Nothing
        }),
{
}

/// A notification goes out for a pending report only: for the first one as soon as the keyboard
/// is awake, for a later one on the decision to notify. Nothing else makes one, and a report
/// that is dropped is not pending any more.
pub proof fn law_only_a_pending_report_is_notified(s: BatteryReporter, input: BatteryInput)
    ensures
        ({
            let (after, step) = reported(s, input);
            &&& step is NotifyLatest <==> s.pending_status is Some && ((input is Awake
                && s.first_report_deadline is Some) || (input == BatteryInput::Decided(
                BatteryReportDecision::Notify,
            ) && s.first_report_deadline is None))
            &&& step is NotifyLatest ==> after == s
            &&& input == BatteryInput::Decided(BatteryReportDecision::Drop)
                && s.first_report_deadline is None ==> after.pending_status is None
            &&& input is DeadlinePassed && s.pending_status is None
                ==> after.first_report_deadline is None
            &&& input is DeadlinePassed && s.pending_status is Some ==> after == s
            &&& after.next_timeout == s.next_timeout
        }),
{
}

/// What the events that wait store is the level of the last of them that has one.
pub proof fn law_the_last_level_counts(waiting: Seq<BatteryStatus>, k: int)
    requires
        0 <= k < waiting.len(),
        waiting[k].spec_level() is Some,
        forall|j: int| k < j < waiting.len() ==> (#[trigger] waiting[j]).spec_level() is None,
    ensures
        last_level(waiting) == waiting[k].spec_level(),
    decreases waiting.len(),
{
    if k < waiting.len() - 1 {
        assert(waiting[waiting.len() - 1].spec_level() is None);
        let p = waiting.drop_last();
        assert forall|j: int| k < j < p.len() implies (#[trigger] p[j]).spec_level() is None by {
            assert(p[j] == waiting[j]);
        }
        law_the_last_level_counts(p, k);
    }
}

/// Events without a level store none.
pub proof fn law_without_a_level_nothing_is_stored(waiting: Seq<BatteryStatus>)
    requires
        forall|j: int| 0 <= j < waiting.len() ==> (#[trigger] waiting[j]).spec_level() is None,
    ensures
        last_level(waiting) is None,
    decreases waiting.len(),
{
    if waiting.len() > 0 {
        let p = waiting.drop_last();
        assert(waiting[waiting.len() - 1].spec_level() is None);
        assert forall|j: int| 0 <= j < p.len() implies (#[trigger] p[j]).spec_level() is None by {
            assert(p[j] == waiting[j]);
        }
        law_without_a_level_nothing_is_stored(p);
    }
}

/// A peripheral's slot is its first place among the configured ones.
pub proof fn law_a_peripheral_has_its_first_place(ids: Seq<usize>, id: usize, k: int)
    requires
        0 <= k <= ids.len(),
        forall|j: int| 0 <= j < k ==> #[trigger] ids[j] != id,
        k < ids.len() ==> ids[k] == id,
    ensures
        slot_of(ids, id) == k,
    decreases k,
{
    if k > 0 {
        let t = ids.drop_first();
        assert(ids[0] != id);
        assert forall|j: int| 0 <= j < k - 1 implies #[trigger] t[j] != id by {
            assert(t[j] == ids[j + 1]);
        }
        law_a_peripheral_has_its_first_place(t, id, k - 1);
    }
}

/// The level of every slot whose level is known is stored for its own slot, and no other.
pub proof fn law_known_levels_are_stored_by_slot(
    statuses: Seq<Option<BatteryStatus>>,
    slot: usize,
    level: u8,
)
    requires
        statuses.len() <= usize::MAX,
    ensures
        known_levels(statuses).contains((slot, level)) <==> slot < statuses.len()
            && statuses[slot as int] is Some && statuses[slot as int]->0.spec_level() == Some(level),
    decreases statuses.len(),
{
    if statuses.len() > 0 {
        let p = statuses.drop_last();
        let rest = known_levels(p);
        let all = known_levels(statuses);
        let last = statuses.len() - 1;
        law_known_levels_are_stored_by_slot(p, slot, level);
        if all.contains((slot, level)) {
            let k = choose|k: int| 0 <= k < all.len() && all[k] == (slot, level);
            if k < rest.len() {
                assert(rest[k] == (slot, level));
                assert(p[slot as int] == statuses[slot as int]);
            }
        }
        if slot < statuses.len() && statuses[slot as int] is Some
            && statuses[slot as int]->0.spec_level() == Some(level) {
            if slot < last {
                assert(p[slot as int] == statuses[slot as int]);
                let k = choose|k: int| 0 <= k < rest.len() && rest[k] == (slot, level);
                assert(all[k] == (slot, level));
            } else {
                assert(all[rest.len() as int] == (slot, level));
            }
        }
    }
}

/// The first report waits for thirty seconds at most, and a report follows the last after half
/// an hour.
pub proof fn law_reports_come_every_half_hour(now: Instant)
    requires
        clock_ok(now),
    ensures
        in_secs(now, FIRST_BATTERY_REPORT_TIMEOUT_SECS).ticks == now.ticks + 30_000_000,
        in_secs(now, BATTERY_REPORT_INTERVAL_SECS).ticks == now.ticks + 1_800_000_000,
{
}

/// A report is held back while its timeout runs and while the keyboard sleeps; once both are over
/// it goes out, and stays decided as time goes on.
pub proof fn law_a_report_waits_for_its_time_and_for_the_keyboard_to_wake(
    now: Instant,
    later: Instant,
    timeout_at: Instant,
    sleeping: bool,
    r: ReportGate,
    after: ReportGate,
)
    requires
        report_gate.ensures((now, timeout_at, sleeping), r),
        report_gate.ensures((later, timeout_at, false), after),
        now.ticks <= later.ticks,
    ensures
        r is Decided <==> timeout_at.ticks <= now.ticks && !sleeping,
        r matches ReportGate::Decided(d) ==> d is Notify,
        r matches ReportGate::AwaitActivity { until_timeout } ==> (until_timeout <==> now.ticks
            < timeout_at.ticks),
        r is Decided ==> after is Decided,
{
}

/// Activity within the last minute lets a report out, older activity drops it, and more recent
/// activity never drops what older activity let out. While the keyboard sleeps nothing is decided.
pub proof fn law_recent_activity_lets_a_report_out(
    sleeping: bool,
    now_secs: u32,
    first: u32,
    second: u32,
    r: Option<BatteryReportDecision>,
    s: Option<BatteryReportDecision>,
)
    requires
        report_on_activity.ensures((sleeping, now_secs, first), r),
        report_on_activity.ensures((sleeping, now_secs, second), s),
        first <= second,
    ensures
        r is None <==> sleeping,
        !sleeping && now_secs < first + 60 ==> r == Some(BatteryReportDecision::Notify),
        !sleeping && now_secs >= first + 60 ==> r == Some(BatteryReportDecision::Drop),
        r == Some(BatteryReportDecision::Notify) ==> s == Some(BatteryReportDecision::Notify),
{
}

/// A reporter with nothing to report waits for a status alone, and one with something also for
/// what lets it out; the first report has its deadline and the others theirs.
pub proof fn law_a_reporter_waits_for_what_it_lacks(reporter: BatteryReporter, r: BatteryWait)
    requires
        BatteryReporter::wait.ensures((&reporter,), r),
    ensures
        r is StatusUntil || r is Status <==> reporter.pending_status is None,
        r is StatusUntil || r is AwakeOrStatus <==> reporter.first_report_deadline is Some,
        r matches BatteryWait::StatusUntil(t) ==> reporter.first_report_deadline == Some(t),
        r matches BatteryWait::DecisionOrStatus(t) ==> t == reporter.next_timeout,
{
}

} // verus!
