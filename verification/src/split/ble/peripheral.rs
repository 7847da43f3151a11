//! The peripheral's end of the split link over BLE.

use vstd::prelude::*;
use crate::ble::conn::same_bytes;
use crate::split::ble::PeerAddress;
use crate::split::driver::SplitDriverError;
use crate::split::SplitMessage;
use crate::text::{decimal, decimal_text};

verus! {

// ---------------------------------------------------------------------------
// Reading messages
// ---------------------------------------------------------------------------

/// Who a custom message is for.
#[derive(Clone, Copy, Debug, PartialEq, Eq, Structural)]
pub enum CustomMessageTarget {
    Central,
    Peripherals,
    Dongle,
}

/// An event of the connection to the central.
#[derive(Clone, Copy, Debug, PartialEq, Eq, Structural)]
pub enum LinkEvent {
    Disconnected,
    /// An attribute is read.
    GattRead,
    /// An attribute is written.
    GattWrite { handle: u16 },
    /// Any other attribute request.
    GattOther,
    /// Parameters of the link changed, or anything else.
    Other,
}

/// What an event calls for.
#[derive(Clone, Copy, Debug, PartialEq, Eq, Structural)]
pub enum LinkStep {
    /// Reset the connection status; the reading ends with `Disconnected`.
    Fail,
    /// Decode the bytes written as a split message, and go on with
    /// [`SplitLink::decoded`].
    DecodeMessage,
    /// Decode the bytes written as a custom message, publish it if it is for
    /// peripherals, and accept the request.
    DecodeCustom,
    /// Accept the request and read on.
    Accept,
    /// Read on.
    Ignore,
}

/// What a reading comes to.
#[derive(Debug, PartialEq, Eq)]
pub enum ReadStep {
    /// The reading ends with a message.
    Deliver(SplitMessage),
    /// Accept the request and read on.
    Accept,
}

/// The attributes of the split link.
#[derive(Clone, Copy, Debug, PartialEq, Eq, Structural)]
pub struct SplitLink {
    pub message_to_peripheral: u16,
    /// Where there are custom messages.
    pub custom_to_peripheral: Option<u16>,
}

impl SplitLink {
    /// Sorts an event.
    pub fn read(&self, event: LinkEvent) -> (r: LinkStep)
        ensures
            r == match event {
                LinkEvent::Disconnected => LinkStep::Fail,
                LinkEvent::GattRead | LinkEvent::GattOther => LinkStep::Accept,
                LinkEvent::GattWrite { handle } => if handle == self.message_to_peripheral {
                    LinkStep::DecodeMessage
                } else if self.custom_to_peripheral == Some(handle) {
                    LinkStep::DecodeCustom
                } else {
                    LinkStep::Accept
                },
                LinkEvent::Other => LinkStep::Ignore,
            },
    {
        match event {
            LinkEvent::Disconnected => LinkStep::Fail,
            LinkEvent::GattRead => LinkStep::Accept,
            LinkEvent::GattOther => LinkStep::Accept,
            LinkEvent::GattWrite { handle } => {
                if handle == self.message_to_peripheral {
                    return LinkStep::DecodeMessage;
                }
                if let Some(custom) = self.custom_to_peripheral {
                    if handle == custom {
                        return LinkStep::DecodeCustom;
                    }
                }
                LinkStep::Accept
            },
            LinkEvent::Other => LinkStep::Ignore,
        }
    }

    /// Goes on once the bytes written were decoded: a message ends the reading,
    /// bytes that are none are dropped.
    pub fn decoded(&self, message: Option<SplitMessage>) -> (r: ReadStep)
        ensures
            r == match message {
                Some(m) => ReadStep::Deliver(m),
                None => ReadStep::Accept,
            },
    {
        match message {
            Some(m) => ReadStep::Deliver(m),
            None => ReadStep::Accept,
        }
    }
}

/// Whether a custom message is published here: a peripheral is an end of the
/// chain, it delivers what names it and has nowhere to relay the rest to.
pub fn delivers_custom(target: Option<CustomMessageTarget>) -> (r: bool)
    ensures
        r == (target == Some(CustomMessageTarget::Peripherals)),
{
    match target {
        Some(CustomMessageTarget::Peripherals) => true,
        _ => false,
    }
}

/// What a notification to the central means: `sent` is its length, or `None` where
/// it failed.
pub fn notify_outcome(sent: Option<usize>) -> (r: Result<usize, SplitDriverError>)
    ensures
        r == match sent {
            Some(len) => Ok(len),
            None => Err(SplitDriverError::BleError(1)),
        },
{
    match sent {
        Some(len) => Ok(len),
        None => Err(SplitDriverError::BleError(1)),
    }
}

// ---------------------------------------------------------------------------
// Finding the central
// ---------------------------------------------------------------------------

/// How long the saved central has to answer.
pub const DIRECTED_SECS: u64 = 10;

/// How long any central has to answer, with and without a download mode behind
/// it.
pub const SEEKING_DFU_SECS: u64 = 10;

pub const SEEKING_SECS: u64 = 300;

/// How long a download host has to answer.
pub const DFU_ADVERTISE_SECS: u64 = 60;

/// Pause after a failed advertisement.
pub const ADVERTISE_RETRY_MS: u64 = 500;

/// What a peripheral is at.
#[derive(Clone, Copy, Debug, PartialEq, Eq, Structural)]
pub enum LinkPhase {
    /// Advertises to the saved central.
    Directed,
    /// Advertises to any central.
    Seeking,
    /// Serves its central.
    Session,
    /// Advertises to a download host.
    DfuAdvertising,
    /// Serves a download host.
    DfuSession,
    /// Sleeps until a key is pressed.
    Asleep,
    /// Waits after a failure.
    Pausing,
}

/// How an advertisement ended.
#[derive(Clone, Copy, Debug, PartialEq, Eq)]
pub enum AdvertiseOutcome {
    /// A peer with that address connected.
    Connected([u8; 6]),
    Timeout,
    Failed,
}

/// How a phase ended.
#[derive(Clone, Copy, Debug, PartialEq, Eq)]
pub enum PhaseEnd {
    Advertised(AdvertiseOutcome),
    /// A session, a sleep or a pause is over.
    Over,
}

/// What the radio is to do in a phase.
#[derive(Clone, Copy, Debug, PartialEq, Eq)]
pub enum LinkAction {
    AdvertiseDirected { addr: [u8; 6], secs: u64 },
    AdvertiseSeeking { id: u8, secs: u64 },
    ServeCentral,
    AdvertiseDfu { secs: u64 },
    ServeDfuHost,
    /// Publish sleep and wait for the next key.
    SleepUntilKey,
    PauseMillis(u64),
}

/// A peripheral in search of its central.
pub struct PeripheralLink {
    pub id: u8,
    /// Whether a download host may connect when no central does.
    pub dfu: bool,
    pub central_addr: Option<[u8; 6]>,
    pub phase: LinkPhase,
}

/// Where a search starts: with the saved central, if there is one.
pub open spec fn search_start(central_addr: Option<[u8; 6]>) -> LinkPhase {
    if central_addr is Some {
        LinkPhase::Directed
    } else {
        LinkPhase::Seeking
    }
}

/// The phase after one that ended.
pub open spec fn phase_after(
    phase: LinkPhase,
    dfu: bool,
    central_addr: Option<[u8; 6]>,
    end: PhaseEnd,
) -> LinkPhase {
    match (phase, end) {
        (
            LinkPhase::Directed | LinkPhase::Seeking,
            PhaseEnd::Advertised(AdvertiseOutcome::Connected(_)),
        ) => LinkPhase::Session,
        (
            LinkPhase::Directed | LinkPhase::Seeking,
            PhaseEnd::Advertised(AdvertiseOutcome::Failed),
        ) => LinkPhase::Pausing,
        (LinkPhase::Directed, PhaseEnd::Advertised(AdvertiseOutcome::Timeout)) =>
        LinkPhase::Seeking,
        (LinkPhase::Seeking, PhaseEnd::Advertised(AdvertiseOutcome::Timeout)) => if dfu {
            LinkPhase::DfuAdvertising
        } else {
            LinkPhase::Asleep
        },
        (
            LinkPhase::DfuAdvertising,
            PhaseEnd::Advertised(AdvertiseOutcome::Connected(_)),
        ) => LinkPhase::DfuSession,
        (LinkPhase::DfuAdvertising, PhaseEnd::Advertised(_)) => LinkPhase::Asleep,
        (LinkPhase::DfuSession, PhaseEnd::Over) => LinkPhase::Asleep,
        (LinkPhase::Session | LinkPhase::Asleep | LinkPhase::Pausing, PhaseEnd::Over) =>
        search_start(central_addr),
        _ => phase,
    }
}

/// Whether a phase, just entered, begins a new search: the connection status is
/// reset, and neither the central counts as connected nor the keyboard as asleep.
pub open spec fn begins_search(phase: LinkPhase, end: PhaseEnd) -> bool {
    end == PhaseEnd::Over && (phase == LinkPhase::Session || phase == LinkPhase::Asleep || phase
        == LinkPhase::Pausing)
}

impl PeripheralLink {
    /// The link at start; `stored` is the central's address as storage has it.
    pub fn new(id: u8, dfu: bool, stored: Option<PeerAddress>) -> (r: Self)
        ensures
            r.id == id,
            r.dfu == dfu,
            r.central_addr == match stored {
                Some(a) => if a.is_valid {
                    Some(a.address)
                } else {
                    None
                },
                None => None,
            },
            r.phase == search_start(r.central_addr),
    {
        let central_addr = match stored {
            Some(a) => {
                if a.is_valid {
                    Some(a.address)
                } else {
                    None
                }
            },
            None => None,
        };
        let phase = if central_addr.is_some() {
            LinkPhase::Directed
        } else {
            LinkPhase::Seeking
        };
        PeripheralLink { id, dfu, central_addr, phase }
    }

    /// What the radio is to do.
    pub fn action(&self) -> (r: LinkAction)
        ensures
            match self.phase {
                LinkPhase::Directed => match self.central_addr {
                    Some(addr) => r == (LinkAction::AdvertiseDirected {
                        addr,
                        secs: DIRECTED_SECS,
                    }),
                    None => r == self.seeking_action(),
                },
                LinkPhase::Seeking => r == self.seeking_action(),
                LinkPhase::Session => r == LinkAction::ServeCentral,
                LinkPhase::DfuAdvertising => r == (LinkAction::AdvertiseDfu {
                    secs: DFU_ADVERTISE_SECS,
                }),
                LinkPhase::DfuSession => r == LinkAction::ServeDfuHost,
                LinkPhase::Asleep => r == LinkAction::SleepUntilKey,
                LinkPhase::Pausing => r == LinkAction::PauseMillis(ADVERTISE_RETRY_MS),
            },
    {
        let secs: u64 = if self.dfu {
            SEEKING_DFU_SECS
        } else {
            SEEKING_SECS
        };
        match self.phase {
            LinkPhase::Directed => match self.central_addr {
                Some(addr) => LinkAction::AdvertiseDirected { addr, secs: DIRECTED_SECS },
                None => LinkAction::AdvertiseSeeking { id: self.id, secs },
            },
            LinkPhase::Seeking => LinkAction::AdvertiseSeeking { id: self.id, secs },
            LinkPhase::Session => LinkAction::ServeCentral,
            LinkPhase::DfuAdvertising => LinkAction::AdvertiseDfu { secs: DFU_ADVERTISE_SECS },
            LinkPhase::DfuSession => LinkAction::ServeDfuHost,
            LinkPhase::Asleep => LinkAction::SleepUntilKey,
            LinkPhase::Pausing => LinkAction::PauseMillis(ADVERTISE_RETRY_MS),
        }
    }

    pub open spec fn seeking_action(&self) -> LinkAction {
        LinkAction::AdvertiseSeeking {
            id: self.id,
            secs: if self.dfu {
                SEEKING_DFU_SECS
            } else {
                SEEKING_SECS
            },
        }
    }

    /// The phase ended. Whether a new search begins.
    pub fn advance(&mut self, end: PhaseEnd) -> (search: bool)
        ensures
            final(self).phase == phase_after(
                old(self).phase,
                old(self).dfu,
                old(self).central_addr,
                end,
            ),
            search == begins_search(old(self).phase, end),
            final(self).id == old(self).id,
            final(self).dfu == old(self).dfu,
            final(self).central_addr == old(self).central_addr,
    {
        let start = if self.central_addr.is_some() {
            LinkPhase::Directed
        } else {
            LinkPhase::Seeking
        };
        let phase = self.phase;
        match end {
            PhaseEnd::Over => match phase {
                LinkPhase::Session => {
                    self.phase = start;
                    true
                },
                LinkPhase::Asleep => {
                    self.phase = start;
                    true
                },
                LinkPhase::Pausing => {
                    self.phase = start;
                    true
                },
                LinkPhase::DfuSession => {
                    self.phase = LinkPhase::Asleep;
                    false
                },
                _ => false,
            },
            PhaseEnd::Advertised(outcome) => {
                match phase {
                    LinkPhase::Directed => {
                        self.phase =
                        match outcome {
                            AdvertiseOutcome::Connected(_) => LinkPhase::Session,
                            AdvertiseOutcome::Timeout => LinkPhase::Seeking,
                            AdvertiseOutcome::Failed => LinkPhase::Pausing,
                        };
                    },
                    LinkPhase::Seeking => {
                        self.phase =
                        match outcome {
                            AdvertiseOutcome::Connected(_) => LinkPhase::Session,
                            AdvertiseOutcome::Timeout => if self.dfu {
                                LinkPhase::DfuAdvertising
                            } else {
                                LinkPhase::Asleep
                            },
                            AdvertiseOutcome::Failed => LinkPhase::Pausing,
                        };
                    },
                    LinkPhase::DfuAdvertising => {
                        self.phase =
                        match outcome {
                            AdvertiseOutcome::Connected(_) => LinkPhase::DfuSession,
                            _ => LinkPhase::Asleep,
                        };
                    },
                    _ => {},
                }
                false
            },
        }
    }

    /// A central connected. What to store, if its address is not the known one.
    pub fn address_to_store(&self, new_addr: [u8; 6]) -> (r: Option<PeerAddress>)
        ensures
            r == if self.central_addr is Some && self.central_addr->Some_0@ == new_addr@ {
                None
            } else {
                Some(PeerAddress { peer_id: 0, is_valid: true, address: new_addr })
            },
    {
        if let Some(known) = &self.central_addr {
            if same_bytes(known, &new_addr) {
                return None;
            }
        }
        Some(PeerAddress::new(0, true, new_addr))
    }

    /// The address was stored, or could not be: a peer that cannot be persisted is
    /// rediscovered after a reboot rather than silently trusted.
    pub fn address_stored(&mut self, new_addr: [u8; 6], ok: bool)
        ensures
            final(self).central_addr == if ok {
                Some(new_addr)
            } else {
                old(self).central_addr
            },
            final(self).phase == old(self).phase,
            final(self).id == old(self).id,
            final(self).dfu == old(self).dfu,
    {
        if ok {
            self.central_addr = Some(new_addr);
        }
    }
}

// ---------------------------------------------------------------------------
// The name in download mode
// ---------------------------------------------------------------------------

/// Bytes that an advertisement has for a name: its 31, less 3 for the flags and 2
/// for the name's own header.
pub const BLE_ADV_NAME_MAX_LEN: usize = 26;

/// Digits of an id that the default name has room for.
pub const NAME_DIGITS: usize = 9;

/// Bytes of a character in UTF-8.
pub open spec fn utf8_len(c: char) -> nat {
    if c as u32 <= 0x7f {
        1
    } else if c as u32 <= 0x7ff {
        2
    } else if c as u32 <= 0xffff {
        3
    } else {
        4
    }
}

/// Characters at the start of a text that fit in that many bytes.
pub open spec fn fitting(s: Seq<char>, bytes: nat) -> nat
    decreases s.len(),
{
    if s.len() == 0 || utf8_len(s[0]) > bytes {
        0
    } else {
        1 + fitting(s.drop_first(), (bytes - utf8_len(s[0])) as nat)
    }
}

/// The default name of a peripheral in download mode.
pub open spec fn default_dfu_name(id: nat) -> Seq<char> {
    let digits = decimal(id);
    "rmk per"@ + digits.subrange(
        0,
        if digits.len() <= NAME_DIGITS {
            digits.len() as int
        } else {
            NAME_DIGITS as int
        },
    )
}

fn char_len(c: char) -> (r: usize)
    ensures
        r == utf8_len(c),
{
    let n: u32 = c as u32;
    if n <= 0x7f {
        1
    } else if n <= 0x7ff {
        2
    } else if n <= 0xffff {
        3
    } else {
        4
    }
}

/// As much of a name as an advertisement has room for, in whole characters.
pub fn truncate_name(full: &str, max_len: usize) -> (r: String)
    ensures
        r@ == full@.subrange(0, fitting(full@, max_len as nat) as int),
        fitting(full@, max_len as nat) <= full@.len(),
{
    let n: usize = full.unicode_len();
    let mut i: usize = 0;
    let mut room: usize = max_len;
    assert(full@.subrange(0, n as int) =~= full@);
    while i < n && char_len(full.get_char(i)) <= room
        invariant
            n == full@.len(),
            i <= n,
            fitting(full@, max_len as nat) == i + fitting(
                full@.subrange(i as int, n as int),
                room as nat,
            ),
        decreases n - i,
    {
        proof {
            let t = full@.subrange(i as int, n as int);
            assert(t[0] == full@[i as int]);
            assert(t.drop_first() =~= full@.subrange(i + 1, n as int));
        }
        room = room - char_len(full.get_char(i));
        i = i + 1;
    }
    proof {
        let t = full@.subrange(i as int, n as int);
        if i < n {
            assert(t[0] == full@[i as int]);
        }
        assert(fitting(t, room as nat) == 0);
    }
    String::from_str(full.substring_char(0, i))
}

/// The name that a peripheral advertises in download mode: its own where one is
/// given, else the default, cut to what an advertisement has room for.
pub fn dfu_advertise_name(id: usize, dfu_name: Option<&str>) -> (r: String)
    ensures
        ({
            let full = match dfu_name {
                Some(name) => name@,
                None => default_dfu_name(id as nat),
            };
            r@ == full.subrange(0, fitting(full, BLE_ADV_NAME_MAX_LEN as nat) as int)
        }),
{
    match dfu_name {
        Some(name) => truncate_name(name, BLE_ADV_NAME_MAX_LEN),
        None => {
            let mut full = String::from_str("rmk per");
            let digits = decimal_text(id as u64);
            let n: usize = digits.as_str().unicode_len();
            let k: usize = if n <= NAME_DIGITS {
                n
            } else {
                NAME_DIGITS
            };
            full.append(digits.as_str().substring_char(0, k));
            truncate_name(full.as_str(), BLE_ADV_NAME_MAX_LEN)
        },
    }
}

// ---------------------------------------------------------------------------
// Laws
// ---------------------------------------------------------------------------

/// Bytes of a text in UTF-8.
pub open spec fn text_bytes(s: Seq<char>) -> nat
    decreases s.len(),
{
    if s.len() == 0 {
        0
    } else {
        utf8_len(s[0]) + text_bytes(s.drop_first())
    }
}

/// An advertised name fits its advertisement, and a name that fits is not cut.
pub proof fn law_an_advertised_name_fits(s: Seq<char>, bytes: nat)
    ensures
        fitting(s, bytes) <= s.len(),
        text_bytes(s.subrange(0, fitting(s, bytes) as int)) <= bytes,
        text_bytes(s) <= bytes ==> fitting(s, bytes) == s.len(),
    decreases s.len(),
{
    if s.len() > 0 && utf8_len(s[0]) <= bytes {
        let t = s.drop_first();
        let left = (bytes - utf8_len(s[0])) as nat;
        law_an_advertised_name_fits(t, left);
        let p = s.subrange(0, fitting(s, bytes) as int);
        assert(p.drop_first() =~= t.subrange(0, fitting(t, left) as int));
    } else {
        assert(s.subrange(0, 0).len() == 0);
    }
}

/// The saved central is always asked first, and a search that finds nobody ends in
/// sleep, from which a key starts the next one.
pub proof fn law_a_search_asks_the_saved_central_first(central_addr: Option<[u8; 6]>, dfu: bool)
    ensures
        phase_after(LinkPhase::Asleep, dfu, central_addr, PhaseEnd::Over) == search_start(
            central_addr,
        ),
        central_addr is Some ==> search_start(central_addr) == LinkPhase::Directed,
        phase_after(
            LinkPhase::Seeking,
            false,
            central_addr,
            PhaseEnd::Advertised(AdvertiseOutcome::Timeout),
        ) == LinkPhase::Asleep,
        phase_after(
            phase_after(
                LinkPhase::Seeking,
                true,
                central_addr,
                PhaseEnd::Advertised(AdvertiseOutcome::Timeout),
            ),
            true,
            central_addr,
            PhaseEnd::Advertised(AdvertiseOutcome::Timeout),
        ) == LinkPhase::Asleep,
{
}

/// An advertised name is cut no shorter than it has to be: one more character would not fit.
pub proof fn law_a_name_is_cut_no_shorter_than_needed(s: Seq<char>, bytes: nat)
    requires
        fitting(s, bytes) < s.len(),
    ensures
        text_bytes(s.subrange(0, fitting(s, bytes) as int + 1)) > bytes,
    decreases s.len(),
{
    let one = s.subrange(0, fitting(s, bytes) as int + 1);
    assert(one[0] == s[0]);
    if utf8_len(s[0]) <= bytes {
        let t = s.drop_first();
        let left = (bytes - utf8_len(s[0])) as nat;
        law_a_name_is_cut_no_shorter_than_needed(t, left);
        assert(one.drop_first() =~= t.subrange(0, fitting(t, left) as int + 1));
    }
}

/// A character takes as many bytes as UTF-8 gives it: one up to 7 bits, two up to 11, three up
/// to 16, and four beyond.
pub proof fn law_characters_take_one_to_four_bytes(c: char)
    ensures
        utf8_len(c) == 1 <==> (c as u32) < 128,
        utf8_len(c) == 2 <==> 128 <= (c as u32) < 2048,
        utf8_len(c) == 3 <==> 2048 <= (c as u32) < 65536,
        utf8_len(c) == 4 <==> 65536 <= (c as u32),
{
}

/// The default name tells peripherals apart: it is a fixed start and the id in decimal, as far
/// as nine digits go.
pub proof fn law_the_default_name_ends_in_the_id(id: nat)
    requires
        decimal(id).len() <= 9,
    ensures
        default_dfu_name(id) == "rmk per"@ + decimal(id),
{
    assert(decimal(id).subrange(0, decimal(id).len() as int) =~= decimal(id));
}

/// Whom a peripheral serves next: the central that answered, however it was asked; any central
/// once the saved one has not answered; and a download host only where that is wanted, nobody
/// else has answered, and it has asked.
pub proof fn law_who_is_served_next(
    phase: LinkPhase,
    dfu: bool,
    central_addr: Option<[u8; 6]>,
    end: PhaseEnd,
)
    ensures
        ({
            let next = phase_after(phase, dfu, central_addr, end);
            let answered = end matches PhaseEnd::Advertised(AdvertiseOutcome::Connected(_));
            let timeout = end == PhaseEnd::Advertised(AdvertiseOutcome::Timeout);
            let failed = end == PhaseEnd::Advertised(AdvertiseOutcome::Failed);
            &&& phase !is Session ==> (next is Session <==> answered && (phase is Directed || phase
                is Seeking))
            &&& phase !is DfuSession ==> (next is DfuSession <==> answered && phase
                is DfuAdvertising)
            &&& phase !is DfuAdvertising ==> (next is DfuAdvertising <==> dfu && timeout && phase
                is Seeking)
            &&& phase !is Pausing ==> (next is Pausing <==> failed && (phase is Directed || phase
                is Seeking))
            &&& phase is Directed && timeout ==> next is Seeking
            &&& phase is DfuAdvertising && (timeout || failed) ==> next is Asleep
            &&& phase is DfuSession && end == PhaseEnd::Over ==> next is Asleep
            &&& (phase is Session || phase is Pausing || phase is Asleep) && end == PhaseEnd::Over
                ==> begins_search(phase, end) && (next is Directed <==> central_addr is Some) && (
            next is Seeking <==> central_addr is None)
            &&& begins_search(phase, end) ==> next is Directed || next is Seeking
            &&& !(phase is Session || phase is Pausing || phase is Asleep) ==> !begins_search(
                phase,
                end,
            )
        }),
{
}

/// A peripheral that may be downloaded to looks for any central for ten seconds, any other for
/// five minutes, under its own number.
pub proof fn law_a_search_takes_its_time(link: PeripheralLink)
    ensures
        link.seeking_action() matches LinkAction::AdvertiseSeeking { id, secs } && id == link.id
            && (link.dfu ==> secs == 10) && (!link.dfu ==> secs == 300),
{
}

/// A write is decoded by the characteristic that it went to, everything else from the central is
/// accepted, and only a lost link fails.
pub proof fn law_a_write_is_read_by_its_characteristic(
    link: SplitLink,
    event: LinkEvent,
    r: LinkStep,
)
    requires
        SplitLink::read.ensures((&link, event), r),
    ensures
        r is Fail <==> event is Disconnected,
        r is Ignore <==> event is Other,
        r is DecodeMessage <==> event == (LinkEvent::GattWrite {
            handle: link.message_to_peripheral,
        }),
        r is DecodeCustom <==> event is GattWrite && !(r is DecodeMessage)
            && link.custom_to_peripheral is Some && event == (LinkEvent::GattWrite {
            handle: link.custom_to_peripheral->0,
        }),
{
}

/// Custom messages for the peripherals are delivered, those for anyone else are not.
pub proof fn law_custom_messages_reach_their_target(target: Option<CustomMessageTarget>, r: bool)
    requires
        delivers_custom.ensures((target,), r),
    ensures
        target is None ==> !r,
        target matches Some(t) ==> (r <==> t is Peripherals),
{
}

} // verus!
