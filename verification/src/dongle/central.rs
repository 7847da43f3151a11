//! The dongle's BLE central: find a keyboard, connect, secure, relay, repeat.

use vstd::prelude::*;
use crate::ble::conn::{same_bytes, Address};
use crate::split::ble::central::Adv;
use crate::time::{Duration, Instant, TICK_HZ};

verus! {

/// The bond slot of the one keyboard.
pub const BOND_SLOT: u8 = 0;

/// How long a connect may take.
pub const DONGLE_CONNECT_TIMEOUT_SECS: u64 = 15;

/// How long securing waits for each event.
pub const SECURE_TIMEOUT_SECS: u64 = 30;

/// Pause between rounds.
pub const DONGLE_RETRY_MS: u64 = 500;

/// How long a pairing window goes on gathering past its first sighting.
pub const GATHER_SECS: u64 = 2;

/// Which keyboard a connection is to, which decides whether it pairs or encrypts,
/// and whether a refused key means the stored bond is dead.
#[derive(Clone, Copy, Debug, PartialEq, Eq, Structural)]
pub enum Peer {
    /// The keyboard this dongle already holds a bond for.
    Bonded,
    /// A keyboard from a pairing window; it replaces that bond.
    New,
}

// ---------------------------------------------------------------------------
// Scanning
// ---------------------------------------------------------------------------

/// What an advertisement means to a dongle.
#[derive(Clone, Copy, Debug)]
pub enum Sighting {
    /// A keyboard seeks a dongle.
    Seeking { address: Address, rssi: i8 },
    /// The bonded keyboard turned up.
    Bonded,
    /// Nothing.
    Unrelated,
}

/// Whose return to report.
#[derive(Clone, Copy, Debug)]
pub struct ScanHandler {
    pub bonded_addr: Option<[u8; 6]>,
}

impl ScanHandler {
    pub fn new() -> (r: Self)
        ensures
            r.bonded_addr is None,
    {
        ScanHandler { bonded_addr: None }
    }

    /// Surface a seeking keyboard, and the bonded one's return.
    pub fn on_adv_report(&self, adv: Adv, address: Address, rssi: i8) -> (r: Sighting)
        ensures
            r == if adv is DongleSeeking {
                Sighting::Seeking { address, rssi }
            } else if self.bonded_addr matches Some(bonded) && bonded@ == address.addr@ {
                Sighting::Bonded
            } else {
                Sighting::Unrelated
            },
    {
        match adv {
            Adv::DongleSeeking => Sighting::Seeking { address, rssi },
            _ => {
                if let Some(bonded) = self.bonded_addr {
                    if same_bytes(&bonded, &address.addr) {
                        return Sighting::Bonded;
                    }
                }
                Sighting::Unrelated
            },
        }
    }
}

/// A pairing window: keyboards seeking a dongle are gathered, and the strongest one
/// is picked.
#[derive(Clone, Copy, Debug)]
pub struct PairingWindow {
    /// When the window closes.
    pub deadline: Instant,
    /// The strongest keyboard so far, and how strong its signal was.
    pub best: Option<(Address, i8)>,
    /// When gathering ends, once a keyboard was sighted.
    pub gather: Option<Instant>,
}

/// What a pairing window does next.
#[derive(Clone, Copy, Debug)]
pub enum WindowStep {
    /// Wait for the next sighting, at most until this instant.
    WaitUntil(Instant),
    /// The window is over, with a candidate or without one.
    Closed(Option<Address>),
}

/// The better of the keyboard sighted before and a new one.
pub open spec fn stronger(best: Option<(Address, i8)>, seen: (Address, i8)) -> (Address, i8) {
    match best {
        Some(b) => if seen.1 > b.1 {
            seen
        } else {
            b
        },
        None => seen,
    }
}

impl PairingWindow {
    /// A window that opens now.
    pub fn open(now: Instant, window_secs: u8) -> (r: Self)
        requires
            now.ticks + window_secs * TICK_HZ <= u64::MAX,
        ensures
            r.deadline.ticks == now.ticks + window_secs * TICK_HZ,
            r.best is None,
            r.gather is None,
    {
        PairingWindow {
            deadline: now.after(Duration::from_secs(window_secs as u64)),
            best: None,
            gather: None,
        }
    }

    /// A keyboard was sighted at `now`. Don't sit out the whole window: gather two
    /// seconds past the first sighting.
    pub fn sighted(&mut self, address: Address, rssi: i8, now: Instant)
        requires
            now.ticks + GATHER_SECS * TICK_HZ <= u64::MAX,
        ensures
            final(self).deadline == old(self).deadline,
            final(self).best == Some(stronger(old(self).best, (address, rssi))),
            final(self).gather == match old(self).gather {
                Some(g) => Some(g),
                None => Some(Instant { ticks: (now.ticks + GATHER_SECS * TICK_HZ) as u64 }),
            },
    {
        let better = match self.best {
            Some((_, best_rssi)) => rssi > best_rssi,
            None => true,
        };
        if better {
            self.best = Some((address, rssi));
        }
        if self.gather.is_none() {
            self.gather = Some(now.after(Duration::from_secs(GATHER_SECS)));
        }
    }

    /// What the window does at `now`. It ends with the strongest keyboard once
    /// gathering is over, and without one where the bonded keyboard turned up or its
    /// time ran out first.
    pub fn run_pairing_window(&self, bonded_seen: bool, now: Instant) -> (r: WindowStep)
        ensures
            r == if self.gather matches Some(g) && g.ticks <= now.ticks {
                WindowStep::Closed(
                    match self.best {
                        Some((address, _)) => Some(address),
                        None => None,
                    },
                )
            } else if bonded_seen || self.deadline.ticks <= now.ticks {
                WindowStep::Closed(None)
            } else {
                WindowStep::WaitUntil(
                    match self.gather {
                        Some(g) if g.ticks < self.deadline.ticks => g,
                        _ => self.deadline,
                    },
                )
            },
    {
        if let Some(g) = self.gather {
            if g.ticks <= now.ticks {
                return WindowStep::Closed(
                    match self.best {
                        Some((address, _)) => Some(address),
                        None => None,
                    },
                );
            }
        }
        if bonded_seen || self.deadline.ticks <= now.ticks {
            return WindowStep::Closed(None);
        }
        match self.gather {
            Some(g) if g.ticks < self.deadline.ticks => WindowStep::WaitUntil(g),
            _ => WindowStep::WaitUntil(self.deadline),
        }
    }
}

// ---------------------------------------------------------------------------
// Securing and connecting
// ---------------------------------------------------------------------------

/// What the link reports while it is secured.
#[derive(Clone, Copy, Debug, PartialEq, Eq, Structural)]
pub enum SecureEvent {
    /// Pairing completed, with bond information or without.
    PairingComplete { bonded: bool },
    Encrypted,
    PairingFailed,
    /// The link went down; `key_refused` where the peer would not authenticate.
    Disconnected { key_refused: bool },
    /// Nothing came in time.
    TimedOut,
    /// The keyboard asks for connection parameters.
    ParamsRequested,
    Other,
}

/// What to do about it.
#[derive(Clone, Copy, Debug, PartialEq, Eq, Structural)]
pub enum SecureStep {
    /// The link is secure; `store` the bond that the pairing produced.
    Secured { store: bool },
    /// Securing failed; `drop_bond` where the stored key can never work again.
    Failed { drop_bond: bool },
    /// Accept what the keyboard asks for, and go on.
    AcceptParams,
    /// Go on.
    Wait,
}

/// Pair (a new keyboard) or encrypt (the bonded one): what an event means. A
/// keyboard that has cleared its side refuses the key, either in pairing or at the
/// link layer.
pub fn secure_connection(peer: Peer, event: SecureEvent) -> (r: SecureStep)
    ensures
        r == match event {
            SecureEvent::PairingComplete { bonded } => SecureStep::Secured { store: bonded },
            SecureEvent::Encrypted => SecureStep::Secured { store: false },
            SecureEvent::PairingFailed => SecureStep::Failed { drop_bond: peer is Bonded },
            SecureEvent::Disconnected { key_refused } => SecureStep::Failed {
                drop_bond: peer is Bonded && key_refused,
            },
            SecureEvent::TimedOut => SecureStep::Failed { drop_bond: false },
            SecureEvent::ParamsRequested => SecureStep::AcceptParams,
            SecureEvent::Other => SecureStep::Wait,
        },
{
    let bonded_peer = match peer {
        Peer::Bonded => true,
        Peer::New => false,
    };
    match event {
        SecureEvent::PairingComplete { bonded } => SecureStep::Secured { store: bonded },
        SecureEvent::Encrypted => SecureStep::Secured { store: false },
        SecureEvent::PairingFailed => SecureStep::Failed { drop_bond: bonded_peer },
        SecureEvent::Disconnected { key_refused } => SecureStep::Failed {
            drop_bond: bonded_peer && key_refused,
        },
        SecureEvent::TimedOut => SecureStep::Failed { drop_bond: false },
        SecureEvent::ParamsRequested => SecureStep::AcceptParams,
        SecureEvent::Other => SecureStep::Wait,
    }
}

/// What a link's event means while it relays.
#[derive(Clone, Copy, Debug, PartialEq, Eq, Structural)]
pub enum WatchStep {
    /// The link is gone.
    End,
    AcceptParams,
    Ignore,
}

/// Events are consumed for the connection's whole life: a full queue drops what is
/// posted next, the disconnect included.
pub fn watch_connection(event: SecureEvent) -> (r: WatchStep)
    ensures
        r == match event {
            SecureEvent::Disconnected { .. } => WatchStep::End,
            SecureEvent::ParamsRequested => WatchStep::AcceptParams,
            _ => WatchStep::Ignore,
        },
{
    match event {
        SecureEvent::Disconnected { .. } => WatchStep::End,
        SecureEvent::ParamsRequested => WatchStep::AcceptParams,
        _ => WatchStep::Ignore,
    }
}

/// How a connection is left.
#[derive(Clone, Copy, Debug, PartialEq, Eq, Structural)]
pub enum Teardown {
    /// Tell the router that the link is down.
    LinkDown,
    /// Release whatever the keyboard was holding on the host.
    ReleaseHeldKeys,
    Disconnect,
}

/// What to do once a connection is over. One that relayed leaves the host holding
/// nothing.
pub fn run_connection(secured: bool, client_ready: bool) -> (r: Vec<Teardown>)
    ensures
        r@ == if secured && client_ready {
            seq![Teardown::LinkDown, Teardown::ReleaseHeldKeys, Teardown::Disconnect]
        } else {
            seq![Teardown::Disconnect]
        },
{
    let mut steps: Vec<Teardown> = Vec::new();
    if secured && client_ready {
        steps.push(Teardown::LinkDown);
        steps.push(Teardown::ReleaseHeldKeys);
    }
    steps.push(Teardown::Disconnect);
    assert(steps@ =~= if secured && client_ready {
        seq![Teardown::LinkDown, Teardown::ReleaseHeldKeys, Teardown::Disconnect]
    } else {
        seq![Teardown::Disconnect]
    });
    steps
}

// ---------------------------------------------------------------------------
// The central's loop
// ---------------------------------------------------------------------------

/// What the central does next.
#[derive(Clone, Copy, Debug)]
pub enum CentralTask {
    /// Open a pairing window. `power_on` marks the one in front of the loop.
    PairingWindow { power_on: bool },
    /// Connect to a keyboard.
    Connect { address: Address, peer: Peer, power_on: bool },
    /// Secure the link, and relay over it until it drops.
    RunConnection { peer: Peer, power_on: bool },
    /// Wait before the next round.
    Pause,
}

/// What came of it.
#[derive(Clone, Copy, Debug)]
pub enum CentralEvent {
    /// The pairing window closed, with a candidate or without one.
    WindowClosed(Option<Address>),
    /// The connect is over.
    ConnectDone { connected: bool },
    /// The connection is over, or the pause is.
    Done,
}

/// The first task of a round. `bonded` is the address of the bonded keyboard.
pub open spec fn round_start(bonded: Option<Address>) -> CentralTask {
    match bonded {
        Some(address) => CentralTask::Connect { address, peer: Peer::Bonded, power_on: false },
        None => CentralTask::PairingWindow { power_on: false },
    }
}

/// What follows a round that ends; the one in front of the loop is not paused
/// after.
pub open spec fn round_end(bonded: Option<Address>, power_on: bool) -> CentralTask {
    if power_on {
        round_start(bonded)
    } else {
        CentralTask::Pause
    }
}

pub open spec fn central_next(
    task: CentralTask,
    event: CentralEvent,
    bonded: Option<Address>,
) -> CentralTask {
    match (task, event) {
        (CentralTask::PairingWindow { power_on }, CentralEvent::WindowClosed(Some(address))) => {
            CentralTask::Connect { address, peer: Peer::New, power_on }
        },
        (
            CentralTask::Connect { peer, power_on, .. },
            CentralEvent::ConnectDone { connected: true },
        ) => CentralTask::RunConnection { peer, power_on },
        (CentralTask::PairingWindow { power_on }, _) => round_end(bonded, power_on),
        (CentralTask::Connect { power_on, .. }, _) => round_end(bonded, power_on),
        (CentralTask::RunConnection { power_on, .. }, _) => round_end(bonded, power_on),
        (CentralTask::Pause, _) => round_start(bonded),
    }
}

/// The dongle's BLE central.
pub struct DongleCentral {
    pub task: CentralTask,
}

impl DongleCentral {
    fn begin(bonded: Option<Address>) -> (r: CentralTask)
        ensures
            r == round_start(bonded),
    {
        match bonded {
            Some(address) => CentralTask::Connect { address, peer: Peer::Bonded, power_on: false },
            None => CentralTask::PairingWindow { power_on: false },
        }
    }

    /// A central that was just switched on. With a bond, it first opens a window in
    /// which another keyboard can take the bonded one's place.
    pub fn new(bonded: Option<Address>) -> (r: Self)
        ensures
            r.task == match bonded {
                Some(_) => CentralTask::PairingWindow { power_on: true },
                None => round_start(bonded),
            },
    {
        let task = if bonded.is_some() {
            CentralTask::PairingWindow { power_on: true }
        } else {
            Self::begin(bonded)
        };
        DongleCentral { task }
    }

    /// The task is over. `bonded` is the address of the bonded keyboard as it is
    /// now.
    pub fn run(&mut self, event: CentralEvent, bonded: Option<Address>)
        ensures
            final(self).task == central_next(old(self).task, event, bonded),
    {
        let power_on = match self.task {
            CentralTask::PairingWindow { power_on } => {
                if let CentralEvent::WindowClosed(Some(address)) = event {
                    self.task = CentralTask::Connect { address, peer: Peer::New, power_on };
                    return;
                }
                power_on
            },
            CentralTask::Connect { peer, power_on, .. } => {
                if let CentralEvent::ConnectDone { connected: true } = event {
                    self.task = CentralTask::RunConnection { peer, power_on };
                    return;
                }
                power_on
            },
            CentralTask::RunConnection { power_on, .. } => power_on,
            CentralTask::Pause => true,
        };
        self.task = if power_on {
            Self::begin(bonded)
        } else {
            CentralTask::Pause
        };
    }
}

// ---------------------------------------------------------------------------
// Laws
// ---------------------------------------------------------------------------

/// The pick of a window after some sightings.
pub open spec fn pick(seen: Seq<(Address, i8)>) -> Option<(Address, i8)>
    decreases seen.len(),
{
    if seen.len() == 0 {
        None
    } else {
        Some(stronger(pick(seen.drop_last()), seen.last()))
    }
}

/// A window's pick is the strongest keyboard sighted, and the first of several that
/// are as strong.
pub proof fn law_the_strongest_keyboard_is_picked(seen: Seq<(Address, i8)>)
    requires
        seen.len() > 0,
    ensures
        exists|k: int|
            {
                &&& 0 <= k < seen.len()
                &&& pick(seen) == Some(#[trigger] seen[k])
                &&& forall|j: int| 0 <= j < seen.len() ==> (#[trigger] seen[j]).1 <= seen[k].1
                &&& forall|j: int| 0 <= j < k ==> (#[trigger] seen[j]).1 < seen[k].1
            },
    decreases seen.len(),
{
    let n = seen.len() - 1;
    if n > 0 {
        let earlier = seen.drop_last();
        law_the_strongest_keyboard_is_picked(earlier);
        let k = choose|k: int|
            {
                &&& 0 <= k < earlier.len()
                &&& pick(earlier) == Some(#[trigger] earlier[k])
                &&& forall|j: int|
                    0 <= j < earlier.len() ==> (#[trigger] earlier[j]).1 <= earlier[k].1
                &&& forall|j: int| 0 <= j < k ==> (#[trigger] earlier[j]).1 < earlier[k].1
            };
        assert(earlier[k] == seen[k]);
        let w = if seen[n].1 > seen[k].1 {
            n
        } else {
            k
        };
        assert(pick(seen) == Some(seen[w]));
        assert forall|j: int| 0 <= j < seen.len() implies (#[trigger] seen[j]).1 <= seen[w].1 by {
            if j < n {
                assert(earlier[j] == seen[j]);
            }
        }
        assert forall|j: int| 0 <= j < w implies (#[trigger] seen[j]).1 < seen[w].1 by {
            assert(earlier[j] == seen[j]);
        }
    } else {
        reveal_with_fuel(pick, 2);
        assert(pick(seen) == Some(seen[0]));
    }
}

/// A replacement is adopted from a pairing window only: a connect to a keyboard that
/// is not the bonded one follows a window that closed with it.
pub proof fn law_a_new_keyboard_comes_from_a_window(
    task: CentralTask,
    event: CentralEvent,
    bonded: Option<Address>,
)
    requires
        central_next(task, event, bonded) matches CentralTask::Connect { peer: Peer::New, .. },
    ensures
        task is PairingWindow,
        event matches CentralEvent::WindowClosed(Some(address))
            && central_next(task, event, bonded)->Connect_address == address,
{
}

/// Once its loop runs, a dongle that holds a bond opens no pairing window: it
/// connects to the bonded keyboard again and again.
pub proof fn law_a_bonded_dongle_seeks_its_keyboard(
    task: CentralTask,
    event: CentralEvent,
    address: Address,
)
    ensures
        !(central_next(task, event, Some(address)) is PairingWindow),
        task is Pause ==> central_next(task, event, Some(address)) == (CentralTask::Connect {
            address,
            peer: Peer::Bonded,
            power_on: false,
        }),
{
}

/// The better of two keyboards is the stronger one, and of two as strong the one sighted first.
pub proof fn law_the_stronger_signal_wins(first: (Address, i8), second: (Address, i8))
    ensures
        stronger(None, second) == second,
        second.1 > first.1 ==> stronger(Some(first), second) == second,
        second.1 <= first.1 ==> stronger(Some(first), second) == first,
{
}

/// A link is run with the very keyboard that was connected, and only then. Every other end of a
/// task ends the round: it pauses, unless it is the round in front of the loop, and a pause leads
/// to the next round.
pub proof fn law_a_round_ends_in_a_pause(
    task: CentralTask,
    event: CentralEvent,
    bonded: Option<Address>,
)
    ensures
        ({
            let next = central_next(task, event, bonded);
            let connected = event matches CentralEvent::ConnectDone { connected: true };
            let found = event matches CentralEvent::WindowClosed(Some(_));
            &&& next is RunConnection <==> task is Connect && connected
            &&& next is RunConnection ==> next->RunConnection_peer == task->Connect_peer
                && next->RunConnection_power_on == task->Connect_power_on
            &&& (task is PairingWindow && !found && !task->PairingWindow_power_on) || (task
                is Connect && !connected && !task->Connect_power_on) || (task is RunConnection
                && !task->RunConnection_power_on) ==> next is Pause
            &&& task is Pause && bonded is None ==> next == (CentralTask::PairingWindow {
                power_on: false,
            })
            &&& next is Pause ==> !(task is Pause)
        }),
{
}

/// A stored bond is dropped only where the bonded keyboard refuses its key: never for a keyboard
/// that is new, and never for want of an answer. A bond is stored only when a pairing made one.
pub proof fn law_a_bond_is_dropped_only_when_its_key_is_refused(
    peer: Peer,
    event: SecureEvent,
    step: SecureStep,
)
    requires
        secure_connection.ensures((peer, event), step),
    ensures
        step == (SecureStep::Failed { drop_bond: true }) <==> peer is Bonded && (event
            is PairingFailed || event == (SecureEvent::Disconnected { key_refused: true })),
        step == (SecureStep::Secured { store: true }) <==> event == (SecureEvent::PairingComplete {
            bonded: true,
        }),
        step is Secured <==> event is PairingComplete || event is Encrypted,
        step is Failed <==> event is PairingFailed || event is Disconnected || event is TimedOut,
{
}

/// A link that relays ends with the disconnection alone.
pub proof fn law_a_relaying_link_ends_with_its_disconnection(event: SecureEvent, step: WatchStep)
    requires
        watch_connection.ensures((event,), step),
    ensures
        step is End <==> event is Disconnected,
        step is AcceptParams <==> event is ParamsRequested,
{
}

/// Every connection is disconnected last, and one that relayed first takes the link down and
/// releases what was held.
pub proof fn law_a_connection_leaves_nothing_held(
    secured: bool,
    client_ready: bool,
    steps: Vec<Teardown>,
)
    requires
        run_connection.ensures((secured, client_ready), steps),
    ensures
        steps@.len() > 0 && steps@.last() is Disconnect,
        steps@.contains(Teardown::ReleaseHeldKeys) <==> secured && client_ready,
        steps@.contains(Teardown::LinkDown) <==> secured && client_ready,
{
    if secured && client_ready {
        assert(steps@[1] is ReleaseHeldKeys);
        assert(steps@[0] is LinkDown);
    }
}

} // verus!
