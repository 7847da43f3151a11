//! The LED that shows how a firmware download goes.

use vstd::prelude::*;
use crate::event::dfu::DfuStatusEvent;
use crate::types::DfuStatus;

verus! {

/// Poll cycles (at 200 ms each) the error LED stays active before automatically
/// turning off: 5 seconds in all.
pub const ERROR_BLINK_CYCLES: u8 = 25;

/// What to do to the LED's pin.
#[derive(Clone, Copy, Debug, PartialEq, Eq, Structural)]
pub enum LedAction {
    Activate,
    Deactivate,
    Toggle,
}

/// Whether the LED blinks, and for how many polls more.
#[derive(Clone, Copy, Debug, PartialEq, Eq, Structural)]
pub struct DfuLedProcessor {
    pub blink: bool,
    /// Polls until the LED turns off; 0 means that it does not.
    pub auto_off_polls: u8,
}

impl DfuLedProcessor {
    pub fn new() -> (r: Self)
        ensures
            r == (DfuLedProcessor { blink: false, auto_off_polls: 0 }),
    {
        DfuLedProcessor { blink: false, auto_off_polls: 0 }
    }

    /// A DFU status was published.
    pub fn on_dfu_status_event(&mut self, event: DfuStatusEvent) -> (r: Option<LedAction>)
        ensures
            (*final(self), r) == match event.0 {
                DfuStatus::Idle | DfuStatus::Finished => (
                    DfuLedProcessor { blink: false, auto_off_polls: 0 },
                    Some(LedAction::Deactivate),
                ),
                DfuStatus::Started | DfuStatus::LockWaiting => (
                    DfuLedProcessor { blink: false, auto_off_polls: 0 },
                    Some(LedAction::Activate),
                ),
                DfuStatus::Downloading => (*old(self), Some(LedAction::Toggle)),
                DfuStatus::Error => (
                    DfuLedProcessor { blink: true, auto_off_polls: ERROR_BLINK_CYCLES },
                    None,
                ),
                DfuStatus::LockUnlocked => (
                    DfuLedProcessor { blink: true, auto_off_polls: 0 },
                    None,
                ),
            },
    {
        match event.0 {
            DfuStatus::Idle | DfuStatus::Finished => {
                self.blink = false;
                self.auto_off_polls = 0;
                Some(LedAction::Deactivate)
            },
            DfuStatus::Started | DfuStatus::LockWaiting => {
                self.blink = false;
                self.auto_off_polls = 0;
                Some(LedAction::Activate)
            },
            DfuStatus::Downloading => Some(LedAction::Toggle),
            DfuStatus::Error => {
                self.blink = true;
                self.auto_off_polls = ERROR_BLINK_CYCLES;
                None
            },
            DfuStatus::LockUnlocked => {
                self.blink = true;
                self.auto_off_polls = 0;
                None
            },
        }
    }

    pub open spec fn after_poll(self) -> Self {
        if self.auto_off_polls == 1 {
            DfuLedProcessor { blink: false, auto_off_polls: 0 }
        } else if self.auto_off_polls > 1 {
            DfuLedProcessor { blink: self.blink, auto_off_polls: (self.auto_off_polls - 1) as u8 }
        } else {
            self
        }
    }

    pub open spec fn poll_actions(self) -> Seq<LedAction> {
        let toggled = if self.blink {
            seq![LedAction::Toggle]
        } else {
            Seq::empty()
        };
        if self.auto_off_polls == 1 {
            toggled.push(LedAction::Deactivate)
        } else {
            toggled
        }
    }

    /// A poll interval has passed: what to do to the pin, in order.
    pub fn poll(&mut self) -> (r: Vec<LedAction>)
        ensures
            *final(self) == old(self).after_poll(),
            r@ == old(self).poll_actions(),
    {
        let mut actions: Vec<LedAction> = Vec::new();
        if self.blink {
            actions.push(LedAction::Toggle);
        }
        if self.auto_off_polls > 0 {
            self.auto_off_polls = self.auto_off_polls - 1;
            if self.auto_off_polls == 0 {
                self.blink = false;
                actions.push(LedAction::Deactivate);
            }
        }
        assert(actions@ =~= old(self).poll_actions());
        actions
    }
}

/// The processor after some polls.
pub open spec fn after_polls(p: DfuLedProcessor, n: nat) -> DfuLedProcessor
    decreases n,
{
    if n == 0 {
        p
    } else {
        after_polls(p, (n - 1) as nat).after_poll()
    }
}

/// An LED that is to turn off by itself stops blinking after as many polls as were
/// set, not before, and ends switched off.
pub proof fn law_an_error_stops_blinking_by_itself(p: DfuLedProcessor, n: nat)
    requires
        p.auto_off_polls > 0,
        n <= p.auto_off_polls,
    ensures
        after_polls(p, n).auto_off_polls == p.auto_off_polls - n,
        after_polls(p, n).blink == (p.blink && n < p.auto_off_polls),
        n == p.auto_off_polls ==> after_polls(p, (n - 1) as nat).poll_actions().last()
            == LedAction::Deactivate,
    decreases n,
{
    if n > 0 {
        law_an_error_stops_blinking_by_itself(p, (n - 1) as nat);
    }
}

// ---------------------------------------------------------------------------
// Laws
// ---------------------------------------------------------------------------

/// Each poll toggles an LED that blinks, and no other; only the last poll before it turns off by
/// itself also switches it off.
pub proof fn law_each_poll_toggles_a_blinking_led(p: DfuLedProcessor)
    ensures
        p.poll_actions().contains(LedAction::Toggle) <==> p.blink,
        p.poll_actions().contains(LedAction::Deactivate) <==> p.auto_off_polls == 1,
        !p.poll_actions().contains(LedAction::Activate),
        p.poll_actions().len() <= 2,
        p.auto_off_polls == 0 ==> p.after_poll() == p,
        p.auto_off_polls > 0 ==> p.after_poll().auto_off_polls == p.auto_off_polls - 1,
        p.after_poll().blink <==> p.blink && p.auto_off_polls != 1,
{
    let a = p.poll_actions();
    if p.blink {
        assert(a[0] == LedAction::Toggle);
    }
    if p.auto_off_polls == 1 {
        assert(a[a.len() - 1] == LedAction::Deactivate);
    }
}

} // verus!
