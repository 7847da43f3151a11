//! The dongle's one keyboard link: reconnect to the bonded keyboard, or adopt one
//! that is seeking a dongle, then relay in both directions until disconnect.

use vstd::prelude::*;
use crate::ble::conn::Address;
use crate::ble::profile::{BondInformation, Identity, ProfileInfo};
use crate::bounded::CccdTable;
use crate::dongle::central::{watch_connection, SecureEvent, WatchStep, BOND_SLOT};
use crate::dongle::relay::{
    carried_report, first_part, FrameParts, KeyboardCharacteristics, NotificationRoute,
};
use crate::types::Report;

verus! {

/// The keyboard that the dongle serves.
pub struct DonglePeer {
    pub bond: Option<BondInformation>,
    pub connected: bool,
}

/// Why securing a link failed.
#[derive(Clone, Copy, Debug, PartialEq, Eq, Structural)]
pub enum SecureError {
    /// The peer rejected our long-term key: the bond is stale for good.
    KeyRejected,
    Failed,
    Disconnected,
}

/// Why a session did not come to relaying.
#[derive(Clone, Copy, Debug, PartialEq, Eq, Structural)]
pub enum SessionError {
    Discovery,
    Handshake,
}

/// Pair (fresh keyboard) or encrypt (bonded keyboard): what an event means, or
/// `None` where the link goes on waiting. A bonded peer that refuses our key has
/// bonded elsewhere.
pub fn secure(pairing: bool, event: SecureEvent) -> (r: Option<Result<(), SecureError>>)
    ensures
        r == match event {
            SecureEvent::Encrypted | SecureEvent::PairingComplete { .. } => Some(Ok(())),
            SecureEvent::PairingFailed => Some(
                Err(
                    if pairing {
                        SecureError::Failed
                    } else {
                        SecureError::KeyRejected
                    },
                ),
            ),
            SecureEvent::Disconnected { .. } => Some(Err(SecureError::Disconnected)),
            SecureEvent::TimedOut => Some(Err(SecureError::Failed)),
            SecureEvent::ParamsRequested | SecureEvent::Other => None,
        },
{
    match event {
        SecureEvent::Encrypted | SecureEvent::PairingComplete { .. } => Some(Ok(())),
        SecureEvent::PairingFailed => {
            if pairing {
                Some(Err(SecureError::Failed))
            } else {
                Some(Err(SecureError::KeyRejected))
            }
        },
        SecureEvent::Disconnected { .. } => Some(Err(SecureError::Disconnected)),
        SecureEvent::TimedOut => Some(Err(SecureError::Failed)),
        SecureEvent::ParamsRequested | SecureEvent::Other => None,
    }
}

/// What is done with a link that was established.
#[derive(Clone, Copy, Debug, PartialEq, Eq, Structural)]
pub enum LinkStep {
    /// Run the session until it ends.
    Serve,
    /// Drop the bond, here and in the storage.
    ForgetBond,
    Disconnect,
    /// The keyboard is not connected any more.
    MarkDisconnected,
    /// Fail what waits for the link, and drop what is queued for it.
    LinkDown,
    /// Release whatever the keyboard was holding.
    ReleaseHeldKeys,
}

pub open spec fn link_steps(secured: Result<(), SecureError>, client_ready: bool) -> Seq<LinkStep> {
    match secured {
        Ok(()) => if client_ready {
            seq![
                LinkStep::Serve,
                LinkStep::Disconnect,
                LinkStep::MarkDisconnected,
                LinkStep::LinkDown,
                LinkStep::ReleaseHeldKeys,
            ]
        } else {
            seq![LinkStep::Disconnect]
        },
        Err(SecureError::KeyRejected) => seq![LinkStep::ForgetBond, LinkStep::Disconnect],
        Err(_) => seq![LinkStep::Disconnect],
    }
}

/// What is done with an established link, in order, once securing it is over. A
/// keyboard that rejects our key has bonded elsewhere, and our record can never work
/// again.
pub fn run_link(secured: Result<(), SecureError>, client_ready: bool) -> (r: Vec<LinkStep>)
    ensures
        r@ == link_steps(secured, client_ready),
{
    let mut steps: Vec<LinkStep> = Vec::new();
    match secured {
        Ok(()) => {
            if client_ready {
                steps.push(LinkStep::Serve);
                steps.push(LinkStep::Disconnect);
                steps.push(LinkStep::MarkDisconnected);
                steps.push(LinkStep::LinkDown);
                steps.push(LinkStep::ReleaseHeldKeys);
            } else {
                steps.push(LinkStep::Disconnect);
            }
        },
        Err(SecureError::KeyRejected) => {
            steps.push(LinkStep::ForgetBond);
            steps.push(LinkStep::Disconnect);
        },
        Err(_) => {
            steps.push(LinkStep::Disconnect);
        },
    }
    assert(steps@ =~= link_steps(secured, client_ready));
    steps
}

/// What a pairing leaves to do.
pub struct CommittedBond {
    /// Another keyboard's bond, to be removed from the stack.
    pub removed: Option<Identity>,
    /// What to store.
    pub store: ProfileInfo,
}

/// The bond that the stack holds for a peer: the first one that is the peer's.
pub open spec fn stack_bond(bonds: Seq<BondInformation>, identity: Identity) -> Option<
    BondInformation,
>
    decreases bonds.len(),
{
    if bonds.len() == 0 {
        None
    } else if bonds[0].identity.is(identity) {
        Some(bonds[0])
    } else {
        stack_bond(bonds.drop_first(), identity)
    }
}

impl DonglePeer {
    pub fn new() -> (r: Self)
        ensures
            r.bond is None,
            !r.connected,
    {
        DonglePeer { bond: None, connected: false }
    }

    /// The steps of a session in front of relaying: discovery, subscription, and,
    /// for a keyboard adopted from a window, the commit of its bond, which replaces
    /// whatever this dongle had.
    pub fn connected_session(
        &mut self,
        discovered: bool,
        subscribed: bool,
        pairing: bool,
        identity: Identity,
        bonds: &Vec<BondInformation>,
    ) -> (r: Result<Option<CommittedBond>, SessionError>)
        ensures
            ({
                let before = *old(self);
                let held = stack_bond(bonds@, identity);
                if !discovered || !subscribed {
                    r matches Err(SessionError::Discovery) && *final(self) == before
                } else if !pairing {
                    &&& r matches Ok(None)
                    &&& final(self).connected
                    &&& final(self).bond == before.bond
                } else if held is None {
                    r matches Err(SessionError::Handshake) && *final(self) == before
                } else {
                    &&& final(self).connected
                    &&& final(self).bond == held
                    &&& r matches Ok(Some(c)) && {
                        &&& c.removed == match before.bond {
                            Some(b) if !b.identity.is(identity) => Some(b.identity),
                            _ => None,
                        }
                        &&& c.store.slot_num == BOND_SLOT
                        &&& !c.store.removed
                        &&& c.store.info == held->0
                        &&& c.store.cccd_table@.len() == 0
                    }
                }
            }),
    {
        if !discovered || !subscribed {
            return Err(SessionError::Discovery);
        }
        if !pairing {
            self.connected = true;
            return Ok(None);
        }
        let mut i: usize = 0;
        assert(bonds@.skip(0) =~= bonds@);
        while i < bonds.len()
            invariant
                i <= bonds@.len(),
                discovered,
                subscribed,
                pairing,
                *self == *old(self),
                stack_bond(bonds@, identity) == stack_bond(bonds@.skip(i as int), identity),
            decreases bonds@.len() - i,
        {
            let bond = bonds[i];
            assert(bonds@.skip(i as int)[0] == bond);
            assert(bonds@.skip(i as int).drop_first() =~= bonds@.skip(i + 1));
            if bond.identity.same(&identity) {
                let removed = match self.bond {
                    Some(b) => {
                        if b.identity.same(&identity) {
                            None
                        } else {
                            Some(b.identity)
                        }
                    },
                    None => None,
                };
                self.bond = Some(bond);
                self.connected = true;
                let store = ProfileInfo {
                    slot_num: BOND_SLOT,
                    removed: false,
                    info: bond,
                    cccd_table: CccdTable::new(),
                };
                return Ok(Some(CommittedBond { removed, store }));
            }
            i = i + 1;
        }
        Err(SessionError::Handshake)
    }

    /// Forget the keyboard: the identity to remove from the stack, if there was a
    /// bond. Its slot in the storage is to be cleared either way.
    pub fn forget_bond(&mut self) -> (r: Option<Identity>)
        ensures
            final(self).bond is None,
            !final(self).connected,
            r == match old(self).bond {
                Some(b) => Some(b.identity),
                None => None,
            },
    {
        self.connected = false;
        let identity = match self.bond {
            Some(b) => Some(b.identity),
            None => None,
        };
        self.bond = None;
        identity
    }

    /// Whether a link that relays is to be dropped: its bond is gone.
    pub fn bond_dropped(&self) -> (r: bool)
        ensures
            r == (self.bond is None),
    {
        self.bond.is_none()
    }
}

// ---------------------------------------------------------------------------
// Relaying
// ---------------------------------------------------------------------------

/// What happens while a link relays.
#[derive(Debug)]
pub enum ServeEvent {
    /// The keyboard notified.
    Notification { handle: u16, data: Vec<u8> },
    /// The host's LEDs changed.
    Leds(u8),
    /// A frame for the keyboard.
    Frame(Vec<u8>),
    /// The part that was to be written was, or was not.
    PartWritten(bool),
    /// The connection itself has news.
    Connection(SecureEvent),
    /// It is time to look whether the bond is still there.
    BondPoll { dropped: bool },
}

/// What is done about it.
#[derive(Debug)]
pub enum ServeStep {
    /// Send the host a report.
    SendReport(Report),
    /// Hand the notification to the host's stream.
    ForwardToHost,
    /// Write the LEDs to the keyboard's output report.
    WriteLeds(u8),
    /// Write a part of a frame to the host protocol's characteristic, and say how it
    /// went.
    WritePart(Vec<u8>),
    /// Accept the parameters that the keyboard asks for.
    AcceptParams,
    /// Drop the link; relaying is over.
    DisconnectAndEnd,
    /// Relaying is over.
    End,
    Wait,
}

/// A link that relays.
pub struct Serve {
    chars: KeyboardCharacteristics,
    chunk: usize,
    parts: FrameParts,
}

/// Whether a step is the write of what is next of a frame, or nothing where nothing
/// is left.
pub open spec fn writes_next(rest: Seq<u8>, chunk: int, step: ServeStep) -> bool {
    if rest.len() == 0 {
        step is Wait
    } else {
        step matches ServeStep::WritePart(part) && part@ == first_part(rest, chunk)
    }
}

impl Serve {
    pub closed spec fn chars(&self) -> KeyboardCharacteristics {
        self.chars
    }

    /// Most bytes of one write.
    pub closed spec fn chunk(&self) -> int {
        self.chunk as int
    }

    /// What is not yet written of the frame on its way.
    pub closed spec fn rest(&self) -> Seq<u8> {
        self.parts.rest()
    }

    pub closed spec fn wf(&self) -> bool {
        self.chunk > 0 && self.parts.wf() && self.parts.part_size() == self.chunk
    }

    /// Starts to relay over a link whose writes take `chunk` bytes.
    pub fn new(chars: KeyboardCharacteristics, chunk: usize) -> (r: Self)
        requires
            chunk > 0,
        ensures
            r.wf(),
            r.chars() == chars,
            r.chunk() == chunk,
            r.rest() == Seq::<u8>::empty(),
    {
        Serve { chars, chunk, parts: FrameParts::new(Vec::new(), chunk) }
    }

    /// Whether LEDs and frames are taken: the frame on its way goes first.
    pub fn takes_output(&self) -> (r: bool)
        requires
            self.wf(),
        ensures
            r == (self.rest().len() == 0),
    {
        self.parts.next_part().is_none()
    }

    fn next_write(&self) -> (r: ServeStep)
        requires
            self.wf(),
        ensures
            writes_next(self.rest(), self.chunk(), r),
    {
        match self.parts.next_part() {
            Some(part) => ServeStep::WritePart(part),
            None => ServeStep::Wait,
        }
    }

    /// Relays: notifications out to the host, LED state and frames back to the
    /// keyboard, until the link is lost or its bond is dropped.
    pub fn serve(&mut self, event: ServeEvent) -> (r: ServeStep)
        requires
            old(self).wf(),
            event is Leds || event is Frame ==> old(self).rest().len() == 0,
        ensures
            final(self).wf(),
            final(self).chars() == old(self).chars(),
            final(self).chunk() == old(self).chunk(),
            final(self).rest() == match event {
                ServeEvent::Frame(frame) => frame@,
                ServeEvent::PartWritten(ok) => if ok {
                    old(self).rest().skip(first_part(old(self).rest(), old(self).chunk()).len() as int)
                } else {
                    Seq::empty()
                },
                _ => old(self).rest(),
            },
            match event {
                ServeEvent::Notification { handle, data } => match r {
                    ServeStep::SendReport(report) => carried_report(
                        old(self).chars(),
                        handle,
                        data@,
                        Some(report),
                    ),
                    ServeStep::ForwardToHost => carried_report(
                        old(self).chars(),
                        handle,
                        data@,
                        None,
                    ) && handle == old(self).chars().rynk_input.handle,
                    ServeStep::Wait => carried_report(old(self).chars(), handle, data@, None)
                        && handle != old(self).chars().rynk_input.handle,
                    _ => false,
                },
                ServeEvent::Leds(bits) => r == ServeStep::WriteLeds(bits),
                ServeEvent::Frame(_) | ServeEvent::PartWritten(_) => writes_next(
                    final(self).rest(),
                    final(self).chunk(),
                    r,
                ),
                ServeEvent::Connection(e) => match e {
                    SecureEvent::Disconnected { .. } => r is End,
                    SecureEvent::ParamsRequested => r is AcceptParams,
                    _ => r is Wait,
                },
                ServeEvent::BondPoll { dropped } => if dropped {
                    r is DisconnectAndEnd
                } else {
                    r is Wait
                },
            },
    {
        match event {
            ServeEvent::Notification { handle, data } => {
                match self.chars.route_reports_first(handle, data.as_slice()) {
                    NotificationRoute::Report(report) => ServeStep::SendReport(report),
                    NotificationRoute::Host => ServeStep::ForwardToHost,
                    NotificationRoute::Drop => ServeStep::Wait,
                }
            },
            ServeEvent::Leds(bits) => ServeStep::WriteLeds(bits),
            ServeEvent::Frame(frame) => {
                self.parts = FrameParts::new(frame, self.chunk);
                self.next_write()
            },
            ServeEvent::PartWritten(ok) => {
                self.parts.written(ok);
                self.next_write()
            },
            ServeEvent::Connection(e) => match watch_connection(e) {
                WatchStep::End => ServeStep::End,
                WatchStep::AcceptParams => ServeStep::AcceptParams,
                WatchStep::Ignore => ServeStep::Wait,
            },
            ServeEvent::BondPoll { dropped } => {
                if dropped {
                    ServeStep::DisconnectAndEnd
                } else {
                    ServeStep::Wait
                }
            },
        }
    }
}

// ---------------------------------------------------------------------------
// The link's loop
// ---------------------------------------------------------------------------

/// What the link does next.
#[derive(Clone, Copy, Debug)]
pub enum LinkTask {
    /// Connect to a keyboard; `pairing` where it comes from a window.
    Connect { address: Address, pairing: bool },
    /// Secure the link, and relay over it until it drops.
    Run { pairing: bool },
    /// Listen for a keyboard that seeks a dongle.
    PairingWindow,
    /// Wait before the next round.
    Pause,
}

/// What came of it.
#[derive(Clone, Copy, Debug)]
pub enum LinkEvent {
    ConnectDone { connected: bool },
    WindowClosed(Option<Address>),
    /// The link, or the pause, is over.
    Done,
}

pub open spec fn link_round(bonded: Option<Address>) -> LinkTask {
    match bonded {
        Some(address) => LinkTask::Connect { address, pairing: false },
        None => LinkTask::PairingWindow,
    }
}

pub open spec fn link_next(task: LinkTask, event: LinkEvent, bonded: Option<Address>) -> LinkTask {
    match task {
        LinkTask::Connect { pairing, .. } => match event {
            LinkEvent::ConnectDone { connected: true } => LinkTask::Run { pairing },
            _ => if pairing {
                LinkTask::Pause
            } else {
                LinkTask::PairingWindow
            },
        },
        LinkTask::PairingWindow => match event {
            LinkEvent::WindowClosed(Some(address)) => LinkTask::Connect { address, pairing: true },
            _ => LinkTask::Pause,
        },
        LinkTask::Run { .. } => LinkTask::Pause,
        LinkTask::Pause => link_round(bonded),
    }
}

/// Serve the bond, and whenever it does not answer, listen for a keyboard seeking a
/// dongle: the first task of a round.
pub fn link_task(bonded: Option<Address>) -> (r: LinkTask)
    ensures
        r == link_round(bonded),
{
    match bonded {
        Some(address) => LinkTask::Connect { address, pairing: false },
        None => LinkTask::PairingWindow,
    }
}

/// The task that follows. `bonded` is the address of the bonded keyboard as it is
/// now.
pub fn next_link_task(task: LinkTask, event: LinkEvent, bonded: Option<Address>) -> (r: LinkTask)
    ensures
        r == link_next(task, event, bonded),
{
    match task {
        LinkTask::Connect { pairing, .. } => match event {
            LinkEvent::ConnectDone { connected: true } => LinkTask::Run { pairing },
            _ => {
                if pairing {
                    LinkTask::Pause
                } else {
                    LinkTask::PairingWindow
                }
            },
        },
        LinkTask::PairingWindow => match event {
            LinkEvent::WindowClosed(Some(address)) => LinkTask::Connect { address, pairing: true },
            _ => LinkTask::Pause,
        },
        LinkTask::Run { .. } => LinkTask::Pause,
        LinkTask::Pause => link_task(bonded),
    }
}

/// A pairing window opens only where there is no bond to serve, or the bonded
/// keyboard did not answer.
pub proof fn law_a_window_opens_only_when_the_bond_does_not_answer(
    task: LinkTask,
    event: LinkEvent,
    bonded: Option<Address>,
)
    requires
        link_next(task, event, bonded) is PairingWindow,
    ensures
        (task is Pause && bonded is None) || (task matches LinkTask::Connect { pairing: false, .. }
            && !(event matches LinkEvent::ConnectDone { connected: true })),
{
}

/// The bond is forgotten only where the bonded keyboard rejected our key.
pub proof fn law_the_bond_is_forgotten_only_when_its_key_is_rejected(
    pairing: bool,
    event: SecureEvent,
    secured: Result<(), SecureError>,
    client_ready: bool,
)
    requires
        secure.ensures((pairing, event), Some(secured)),
        link_steps(secured, client_ready).contains(LinkStep::ForgetBond),
    ensures
        !pairing,
        event is PairingFailed,
{
    let steps = link_steps(secured, client_ready);
    let i = steps.index_of(LinkStep::ForgetBond);
    assert(steps[i] == LinkStep::ForgetBond);
}

// ---------------------------------------------------------------------------
// Laws
// ---------------------------------------------------------------------------

/// Every established link is disconnected. One that was served is marked so, taken down and has
/// what it held released, in this order; the bond is forgotten where the key was rejected, and
/// only there.
pub proof fn law_a_served_link_leaves_nothing_held(
    secured: Result<(), SecureError>,
    client_ready: bool,
)
    ensures
        ({
            let steps = link_steps(secured, client_ready);
            let served = secured is Ok && client_ready;
            &&& steps.contains(LinkStep::Disconnect)
            &&& steps.contains(LinkStep::Serve) <==> served
            &&& steps.contains(LinkStep::ReleaseHeldKeys) <==> served
            &&& steps.contains(LinkStep::ForgetBond) <==> secured == Err::<(), SecureError>(
                SecureError::KeyRejected,
            )
            &&& served ==> steps.len() == 5 && steps[0] is Serve && steps[1] is Disconnect
                && steps[2] is MarkDisconnected && steps[3] is LinkDown && steps[4]
                is ReleaseHeldKeys
        }),
{
    let steps = link_steps(secured, client_ready);
    if secured is Ok && client_ready {
        assert(steps[0] is Serve && steps[1] is Disconnect && steps[4] is ReleaseHeldKeys);
    } else if secured == Err::<(), SecureError>(SecureError::KeyRejected) {
        assert(steps[0] is ForgetBond && steps[1] is Disconnect);
    } else {
        assert(steps[0] is Disconnect);
    }
}

/// The bond of a peer is one that the stack holds for it, and a peer without one has none.
pub proof fn law_a_peers_bond_is_its_own(bonds: Seq<BondInformation>, identity: Identity)
    ensures
        stack_bond(bonds, identity) matches Some(b) ==> bonds.contains(b) && b.identity.is(identity),
        stack_bond(bonds, identity) is None <==> forall|i: int|
            0 <= i < bonds.len() ==> !(#[trigger] bonds[i]).identity.is(identity),
    decreases bonds.len(),
{
    if bonds.len() > 0 {
        let t = bonds.drop_first();
        law_a_peers_bond_is_its_own(t, identity);
        if bonds[0].identity.is(identity) {
            assert(bonds.contains(bonds[0]));
        } else {
            if let Some(b) = stack_bond(t, identity) {
                let k = choose|k: int| 0 <= k < t.len() && t[k] == b;
                assert(bonds[k + 1] == b);
            } else {
                assert forall|i: int| 0 <= i < bonds.len() implies !(
                #[trigger] bonds[i]).identity.is(identity) by {
                    if i > 0 {
                        assert(t[i - 1] == bonds[i]);
                    }
                }
            }
        }
    }
}

/// A link runs with the keyboard that answered, as the one it was asked for. The bonded keyboard
/// that does not answer opens a window; a round ends with its link or without a find, and the
/// next starts with the bonded keyboard, where there is one.
pub proof fn law_the_bonded_keyboard_is_asked_first(
    task: LinkTask,
    event: LinkEvent,
    bonded: Option<Address>,
)
    ensures
        ({
            let next = link_next(task, event, bonded);
            let connected = event matches LinkEvent::ConnectDone { connected: true };
            &&& task matches LinkTask::Connect { pairing, .. } ==> (connected ==> next == (
            LinkTask::Run { pairing })) && (!connected && !pairing ==> next is PairingWindow) && (
            !connected && pairing ==> next is Pause)
            &&& task is PairingWindow ==> (event matches LinkEvent::WindowClosed(Some(a)) ==> next
                == (LinkTask::Connect { address: a, pairing: true }))
            &&& task is PairingWindow && !(event matches LinkEvent::WindowClosed(Some(_))) ==> next
                is Pause
            &&& task is Run ==> next is Pause
            &&& task is Pause ==> (bonded matches Some(a) ==> next == (LinkTask::Connect {
                address: a,
                pairing: false,
            }))
            &&& task is Pause && bonded is None ==> next is PairingWindow
        }),
{
}

/// A link is secured by encryption or a pairing that completed; a key is rejected only by the
/// bonded keyboard, in pairing.
pub proof fn law_a_key_is_rejected_by_the_bonded_keyboard_only(
    pairing: bool,
    event: SecureEvent,
    r: Option<Result<(), SecureError>>,
)
    requires
        secure.ensures((pairing, event), r),
    ensures
        r == Some(Ok::<(), SecureError>(())) <==> event is Encrypted || event is PairingComplete,
        r == Some(Err::<(), SecureError>(SecureError::KeyRejected)) <==> event is PairingFailed
            && !pairing,
        r is None <==> event is ParamsRequested || event is Other,
        r == Some(Err::<(), SecureError>(SecureError::Disconnected)) <==> event is Disconnected,
{
}

} // verus!
