//! The dongle's USB session for a Vial keyboard: a 32-byte report relay.
//!
//! Vial is strict request/response with no framing, so whole reports cross one by
//! one in both directions. The relay touches nothing but the first byte, and only
//! to echo a request back as unhandled when there is no keyboard to ask.

use vstd::prelude::*;
use crate::dongle::router::QueueOp;

verus! {

/// Bytes of a Vial report.
pub const VIAL_EP_SIZE: usize = 32;

/// The command byte of an answer to an unknown request.
pub const UNHANDLED: u8 = 0xFF;

/// What happens to a request.
#[derive(Clone, Copy, Debug, PartialEq, Eq)]
pub enum ReportRoute {
    /// Queue it for the keyboard, unless the link drops while it waits for room.
    Forward,
    /// Answer the host with this report.
    Answer([u8; VIAL_EP_SIZE]),
}

/// Serves the Vial USB interface of a dongle.
pub struct DongleRouter {
    /// A keyboard is connected and takes what is queued for it.
    link_connected: bool,
}

/// The answer to a request that no keyboard takes: the request itself, marked as
/// unhandled.
pub open spec fn unhandled_echo(report: Seq<u8>) -> Seq<u8> {
    report.update(0, UNHANDLED)
}

/// The echo of a request.
pub fn echo(report: [u8; VIAL_EP_SIZE]) -> (r: [u8; VIAL_EP_SIZE])
    ensures
        r@ == unhandled_echo(report@),
{
    let mut out = report;
    out[0] = UNHANDLED;
    assert(out@ =~= unhandled_echo(report@));
    out
}

impl DongleRouter {
    pub closed spec fn connected(&self) -> bool {
        self.link_connected
    }

    pub fn new() -> (r: Self)
        ensures
            !r.connected(),
    {
        DongleRouter { link_connected: false }
    }

    /// The link relays from now on. The queue for the keyboard starts empty.
    pub fn link_up(&mut self) -> (r: Vec<QueueOp>)
        ensures
            final(self).connected(),
            r@ == seq![QueueOp::ClearToKeyboard],
    {
        self.link_connected = true;
        let mut ops: Vec<QueueOp> = Vec::new();
        ops.push(QueueOp::ClearToKeyboard);
        assert(ops@ =~= seq![QueueOp::ClearToKeyboard]);
        ops
    }

    /// The link dropped. The queue for the keyboard is dropped with it, so a
    /// keyboard connecting later can't replay a stale request.
    pub fn link_down(&mut self) -> (r: Vec<QueueOp>)
        ensures
            !final(self).connected(),
            r@ == seq![QueueOp::ClearToKeyboard],
    {
        self.link_connected = false;
        let mut ops: Vec<QueueOp> = Vec::new();
        ops.push(QueueOp::ClearToKeyboard);
        assert(ops@ =~= seq![QueueOp::ClearToKeyboard]);
        ops
    }

    /// A host session starts with nothing queued in either direction.
    pub fn run_session(&self) -> (r: Vec<QueueOp>)
        ensures
            r@ == seq![QueueOp::ClearToHost, QueueOp::ClearToKeyboard],
    {
        let mut ops: Vec<QueueOp> = Vec::new();
        ops.push(QueueOp::ClearToHost);
        ops.push(QueueOp::ClearToKeyboard);
        assert(ops@ =~= seq![QueueOp::ClearToHost, QueueOp::ClearToKeyboard]);
        ops
    }

    /// Where a request goes.
    pub fn forward_report(&self, report: [u8; VIAL_EP_SIZE]) -> (r: ReportRoute)
        ensures
            match r {
                ReportRoute::Forward => self.connected(),
                ReportRoute::Answer(a) => !self.connected() && a@ == unhandled_echo(report@),
            },
    {
        if self.link_connected {
            ReportRoute::Forward
        } else {
            ReportRoute::Answer(echo(report))
        }
    }

    /// The answer to a forwarded request once its wait is over: none where it was
    /// queued; where the link dropped first, the host is answered, as it would
    /// wait for ever.
    pub fn after_forward(&self, report: [u8; VIAL_EP_SIZE], queued: bool) -> (r: Option<
        [u8; VIAL_EP_SIZE],
    >)
        ensures
            match r {
                Some(a) => !queued && a@ == unhandled_echo(report@),
                None => queued,
            },
    {
        if queued {
            None
        } else {
            Some(echo(report))
        }
    }
}

/// The echo keeps everything of a request but its first byte: with no number to
/// go by, the rest is what ties the answer to the request.
pub proof fn law_the_echo_keeps_the_tail(report: Seq<u8>, i: int)
    requires
        report.len() == VIAL_EP_SIZE,
        0 < i < VIAL_EP_SIZE,
    ensures
        unhandled_echo(report).len() == VIAL_EP_SIZE,
        unhandled_echo(report)[0] == UNHANDLED,
        unhandled_echo(report)[i] == report[i],
{
}

// ---------------------------------------------------------------------------
// Laws
// ---------------------------------------------------------------------------

/// An answer that no keyboard gave is marked by its first byte, 0xFF, whatever was asked.
pub proof fn law_an_unhandled_request_is_marked(report: Seq<u8>, other: Seq<u8>)
    requires
        report.len() == 32,
        other.len() == 32,
    ensures
        unhandled_echo(report)[0] == 0xFF,
        unhandled_echo(report) == unhandled_echo(other) <==> report.drop_first()
            == other.drop_first(),
{
    if report.drop_first() == other.drop_first() {
        assert forall|i: int| 0 < i < 32 implies report[i] == other[i] by {
            assert(report.drop_first()[i - 1] == other.drop_first()[i - 1]);
        }
        assert(unhandled_echo(report) =~= unhandled_echo(other));
    }
    if unhandled_echo(report) == unhandled_echo(other) {
        assert forall|i: int| 0 <= i < 31 implies report.drop_first()[i] == other.drop_first()[i] by {
            assert(unhandled_echo(report)[i + 1] == unhandled_echo(other)[i + 1]);
        }
        assert(report.drop_first() =~= other.drop_first());
    }
}

} // verus!
