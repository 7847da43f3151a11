//! The keyboard's dongle event service: what the keyboard tells the dongle.

use vstd::prelude::*;
use crate::event::action::ActionEvent;
use crate::types::{BatteryStatus, ModifierCombination};

verus! {

/// Events that wait to be sent at most.
pub const DONGLE_EVENT_QUEUE: usize = 8;

/// Keyboard events which are sent from the keyboard to the dongle.
#[derive(Clone, Copy, Debug, PartialEq, Eq, Structural)]
pub enum DongleEvent {
    Action(ActionEvent),
    Modifier(ModifierCombination),
    Layer(u8),
    Wpm(u16),
    Sleep(bool),
    Battery(BatteryStatus),
    PeripheralBattery { id: usize, status: BatteryStatus },
}

/// The next event of each source, where it has one.
#[derive(Clone, Copy, Debug)]
pub struct PendingEvents {
    pub action: Option<ActionEvent>,
    pub modifier: Option<ModifierCombination>,
    pub layer: Option<u8>,
    pub wpm: Option<u16>,
    pub sleep: Option<bool>,
    pub battery: Option<BatteryStatus>,
    pub peripheral_battery: Option<(usize, BatteryStatus)>,
}

impl PendingEvents {
    /// The sources in the order in which they are served.
    pub open spec fn in_order(self) -> Seq<Option<DongleEvent>> {
        seq![
            match self.action {
                Some(e) => Some(DongleEvent::Action(e)),
                None => None,
            },
            match self.modifier {
                Some(e) => Some(DongleEvent::Modifier(e)),
                None => None,
            },
            match self.layer {
                Some(e) => Some(DongleEvent::Layer(e)),
                None => None,
            },
            match self.wpm {
                Some(e) => Some(DongleEvent::Wpm(e)),
                None => None,
            },
            match self.sleep {
                Some(e) => Some(DongleEvent::Sleep(e)),
                None => None,
            },
            match self.battery {
                Some(e) => Some(DongleEvent::Battery(e)),
                None => None,
            },
            match self.peripheral_battery {
                Some((id, status)) => Some(DongleEvent::PeripheralBattery { id, status }),
                None => None,
            },
        ]
    }

    /// Take the event of the first source that has one.
    pub fn next_event(&mut self) -> (r: Option<DongleEvent>)
        ensures
            match r {
                Some(e) => exists|i: int|
                    {
                        &&& 0 <= i < 7
                        &&& #[trigger] old(self).in_order()[i] == Some(e)
                        &&& forall|j: int| 0 <= j < i ==> #[trigger] old(self).in_order()[j] is None
                        &&& final(self).in_order() == old(self).in_order().update(i, None)
                    },
                None => {
                    &&& forall|j: int| 0 <= j < 7 ==> #[trigger] old(self).in_order()[j] is None
                    &&& *final(self) == *old(self)
                },
            },
    {
        let ghost before = self.in_order();
        if let Some(e) = self.action {
            self.action = None;
            assert(before[0] == Some(DongleEvent::Action(e)));
            assert(self.in_order() =~= before.update(0, None));
            return Some(DongleEvent::Action(e));
        }
        if let Some(e) = self.modifier {
            self.modifier = None;
            assert(before[1] == Some(DongleEvent::Modifier(e)));
            assert(self.in_order() =~= before.update(1, None));
            return Some(DongleEvent::Modifier(e));
        }
        if let Some(e) = self.layer {
            self.layer = None;
            assert(before[2] == Some(DongleEvent::Layer(e)));
            assert(self.in_order() =~= before.update(2, None));
            return Some(DongleEvent::Layer(e));
        }
        if let Some(e) = self.wpm {
            self.wpm = None;
            assert(before[3] == Some(DongleEvent::Wpm(e)));
            assert(self.in_order() =~= before.update(3, None));
            return Some(DongleEvent::Wpm(e));
        }
        if let Some(e) = self.sleep {
            self.sleep = None;
            assert(before[4] == Some(DongleEvent::Sleep(e)));
            assert(self.in_order() =~= before.update(4, None));
            return Some(DongleEvent::Sleep(e));
        }
        if let Some(e) = self.battery {
            self.battery = None;
            assert(before[5] == Some(DongleEvent::Battery(e)));
            assert(self.in_order() =~= before.update(5, None));
            return Some(DongleEvent::Battery(e));
        }
        if let Some((id, status)) = self.peripheral_battery {
            self.peripheral_battery = None;
            assert(before[6] == Some(DongleEvent::PeripheralBattery { id, status }));
            assert(self.in_order() =~= before.update(6, None));
            return Some(DongleEvent::PeripheralBattery { id, status });
        }
        None
    }
}

/// Events in an `embassy_sync` channel of [`DONGLE_EVENT_QUEUE`] entries.
#[verifier::external_body]
pub struct DongleEventQueue {
    inner: embassy_sync::channel::Channel<
        embassy_sync::blocking_mutex::raw::NoopRawMutex,
        DongleEvent,
        DONGLE_EVENT_QUEUE,
    >,
}

/// The events that wait in a queue, the first to come first.
pub uninterp spec fn waiting_events(queue: DongleEventQueue) -> Seq<DongleEvent>;

/// `embassy_sync::channel::Channel::new`: no events.
#[verifier::external_body]
fn queue_new() -> (r: DongleEventQueue)
    ensures
        waiting_events(r) == Seq::<DongleEvent>::empty(),
{
    DongleEventQueue { inner: embassy_sync::channel::Channel::new() }
}

/// `embassy_sync::channel::Channel::try_send`: one more at the end, or an error and
/// no change where the channel is full.
#[verifier::external_body]
fn queue_try_send(queue: &mut DongleEventQueue, event: DongleEvent) -> (r: Result<(), ()>)
    ensures
        match r {
            Ok(()) => waiting_events(*old(queue)).len() < DONGLE_EVENT_QUEUE && waiting_events(
                *final(queue),
            ) == waiting_events(*old(queue)).push(event),
            Err(()) => waiting_events(*old(queue)).len() >= DONGLE_EVENT_QUEUE && waiting_events(
                *final(queue),
            ) == waiting_events(*old(queue)),
        },
{
    match queue.inner.try_send(event) {
        Ok(()) => Ok(()),
        Err(_) => Err(()),
    }
}

/// `embassy_sync::channel::Channel::try_receive`: takes the first, or an error where
/// the channel is empty.
#[verifier::external_body]
fn queue_try_receive(queue: &mut DongleEventQueue) -> (r: Result<DongleEvent, ()>)
    ensures
        match r {
            Ok(event) => {
                let before = waiting_events(*old(queue));
                before.len() > 0 && event == before[0] && waiting_events(*final(queue))
                    == before.drop_first()
            },
            Err(()) => waiting_events(*old(queue)).len() == 0 && waiting_events(*final(queue))
                == waiting_events(*old(queue)),
        },
{
    match queue.inner.try_receive() {
        Ok(event) => Ok(event),
        Err(_) => Err(()),
    }
}

impl View for DongleEventQueue {
    type V = Seq<DongleEvent>;

    open spec fn view(&self) -> Seq<DongleEvent> {
        waiting_events(*self)
    }
}

impl DongleEventQueue {
    pub fn new() -> (r: Self)
        ensures
            r@ == Seq::<DongleEvent>::empty(),
    {
        queue_new()
    }

    /// Queue an event. One that finds the queue full is dropped.
    pub fn queue_event(&mut self, event: DongleEvent)
        ensures
            final(self)@ == queued(old(self)@, event),
    {
        let _ = queue_try_send(self, event);
    }

    /// The next event to send, where one waits.
    pub fn next_event(&mut self) -> (r: Option<DongleEvent>)
        ensures
            match r {
                Some(event) => old(self)@.len() > 0 && event == old(self)@[0] && final(self)@
                    == old(self)@.drop_first(),
                None => old(self)@.len() == 0 && final(self)@ == old(self)@,
            },
    {
        match queue_try_receive(self) {
            Ok(event) => Some(event),
            Err(()) => None,
        }
    }
}

/// The events that wait after one more came.
pub open spec fn queued(waiting: Seq<DongleEvent>, event: DongleEvent) -> Seq<DongleEvent> {
    if waiting.len() < DONGLE_EVENT_QUEUE {
        waiting.push(event)
    } else {
        waiting
    }
}

/// The events that wait after some came.
pub open spec fn queued_all(waiting: Seq<DongleEvent>, events: Seq<DongleEvent>) -> Seq<
    DongleEvent,
>
    decreases events.len(),
{
    if events.len() == 0 {
        waiting
    } else {
        queued(queued_all(waiting, events.drop_last()), events.last())
    }
}

/// However many events come while none is sent, those that fit first are sent, in
/// the order in which they came.
pub proof fn law_the_first_events_are_kept(events: Seq<DongleEvent>)
    ensures
        queued_all(Seq::empty(), events) == if events.len() <= DONGLE_EVENT_QUEUE {
            events
        } else {
            events.take(DONGLE_EVENT_QUEUE as int)
        },
    decreases events.len(),
{
    if events.len() > 0 {
        let earlier = events.drop_last();
        law_the_first_events_are_kept(earlier);
        if events.len() <= DONGLE_EVENT_QUEUE {
            assert(earlier.push(events.last()) =~= events);
        } else if earlier.len() == DONGLE_EVENT_QUEUE {
            assert(earlier =~= events.take(DONGLE_EVENT_QUEUE as int));
        } else {
            assert(earlier.take(DONGLE_EVENT_QUEUE as int) =~= events.take(
                DONGLE_EVENT_QUEUE as int,
            ));
        }
    } else {
        assert(queued_all(Seq::empty(), events) =~= events);
    }
}

// ---------------------------------------------------------------------------
// Laws
// ---------------------------------------------------------------------------

/// Sources are served in the order of actions, modifiers, layers, typing speed, sleep, the
/// keyboard's battery and the peripherals' batteries, each with its own event.
pub proof fn law_sources_are_served_in_order(p: PendingEvents)
    ensures
        p.in_order().len() == 7,
        p.action matches Some(e) ==> p.in_order()[0] == Some(DongleEvent::Action(e)),
        p.modifier matches Some(e) ==> p.in_order()[1] == Some(DongleEvent::Modifier(e)),
        p.layer matches Some(e) ==> p.in_order()[2] == Some(DongleEvent::Layer(e)),
        p.wpm matches Some(e) ==> p.in_order()[3] == Some(DongleEvent::Wpm(e)),
        p.sleep matches Some(e) ==> p.in_order()[4] == Some(DongleEvent::Sleep(e)),
        p.battery matches Some(e) ==> p.in_order()[5] == Some(DongleEvent::Battery(e)),
        p.peripheral_battery matches Some((id, status)) ==> p.in_order()[6] == Some(
            DongleEvent::PeripheralBattery { id, status },
        ),
        p.in_order()[0] is Some <==> p.action is Some,
        p.in_order()[1] is Some <==> p.modifier is Some,
        p.in_order()[2] is Some <==> p.layer is Some,
        p.in_order()[3] is Some <==> p.wpm is Some,
        p.in_order()[4] is Some <==> p.sleep is Some,
        p.in_order()[5] is Some <==> p.battery is Some,
        p.in_order()[6] is Some <==> p.peripheral_battery is Some,
{
}

/// An event is queued behind those that wait, and only where eight wait already is it lost.
pub proof fn law_an_event_is_lost_only_to_a_full_queue(
    waiting: Seq<DongleEvent>,
    event: DongleEvent,
    i: int,
)
    ensures
        0 <= i < waiting.len() ==> queued(waiting, event)[i] == waiting[i],
        waiting.len() < 8 ==> queued(waiting, event).len() == waiting.len() + 1 && queued(
            waiting,
            event,
        ).last() == event,
        waiting.len() >= 8 ==> queued(waiting, event) == waiting,
{
}

} // verus!
