//! Lifecycle events of the registry and their best-effort fan-out to
//! subscribers.

use vstd::prelude::*;
use crate::serial::lists::{lemma_position_of, position_of};

verus! {

/// Something that happened to a port. Broadcast once; a subscriber that
/// comes later does not see it.
#[derive(Debug, Clone, PartialEq, Eq)]
pub enum SerialPortEvent {
    /// The port was added to the watched set.
    PortAddedToMonitoring { port: String },
    /// The port is no longer in the system and was taken out of the registry.
    PortRemovedFromSystem { port: String },
    /// A watched port came back and was registered again.
    PortReconnected { port: String },
    /// A watched port came back but could not be registered.
    PortConnectionFailed { port: String, error: String },
    /// Periodic status of a registered port.
    PortStatusUpdate { port: String, is_connected: bool, is_available: bool },
}

/// An event as contracts see it: with its texts as character sequences.
pub enum EventModel {
    AddedToMonitoring { port: Seq<char> },
    RemovedFromSystem { port: Seq<char> },
    Reconnected { port: Seq<char> },
    ConnectionFailed { port: Seq<char>, error: Seq<char> },
    StatusUpdate { port: Seq<char>, is_connected: bool, is_available: bool },
}

impl View for SerialPortEvent {
    type V = EventModel;

    open spec fn view(&self) -> EventModel {
        match *self {
            SerialPortEvent::PortAddedToMonitoring { port } => EventModel::AddedToMonitoring {
                port: port@,
            },
            SerialPortEvent::PortRemovedFromSystem { port } => EventModel::RemovedFromSystem {
                port: port@,
            },
            SerialPortEvent::PortReconnected { port } => EventModel::Reconnected { port: port@ },
            SerialPortEvent::PortConnectionFailed { port, error } => EventModel::ConnectionFailed {
                port: port@,
                error: error@,
            },
            SerialPortEvent::PortStatusUpdate {
                port,
                is_connected,
                is_available,
            } => EventModel::StatusUpdate { port: port@, is_connected, is_available },
        }
    }
}

impl SerialPortEvent {
    /// A copy of the event.
    pub fn duplicate(&self) -> (copy: Self)
        ensures
            copy@ == self@,
    {
        match self {
            SerialPortEvent::PortAddedToMonitoring { port } => {
                SerialPortEvent::PortAddedToMonitoring { port: port.clone() }
            },
            SerialPortEvent::PortRemovedFromSystem { port } => {
                SerialPortEvent::PortRemovedFromSystem { port: port.clone() }
            },
            SerialPortEvent::PortReconnected { port } => {
                SerialPortEvent::PortReconnected { port: port.clone() }
            },
            SerialPortEvent::PortConnectionFailed { port, error } => {
                SerialPortEvent::PortConnectionFailed { port: port.clone(), error: error.clone() }
            },
            SerialPortEvent::PortStatusUpdate { port, is_connected, is_available } => {
                SerialPortEvent::PortStatusUpdate {
                    port: port.clone(),
                    is_connected: *is_connected,
                    is_available: *is_available,
                }
            },
        }
    }
}

/// The events of a list, each as contracts see it.
pub open spec fn event_views(events: Seq<SerialPortEvent>) -> Seq<EventModel> {
    events.map_values(|event: SerialPortEvent| event@)
}

/// A subscriber as contracts see it.
pub struct SubscriberModel {
    pub id: u64,
    /// The receiving side still exists.
    pub open: bool,
    /// Delivered and not yet taken, oldest first.
    pub pending: Seq<EventModel>,
}

/// One subscriber's delivery queue.
#[derive(Debug)]
pub struct Subscription {
    id: u64,
    open: bool,
    pending: Vec<SerialPortEvent>,
}

impl View for Subscription {
    type V = SubscriberModel;

    closed spec fn view(&self) -> SubscriberModel {
        SubscriberModel { id: self.id, open: self.open, pending: event_views(self.pending@) }
    }
}

/// The subscribers of a list, each as contracts see it.
pub open spec fn subscriber_views(subscribers: Seq<Subscription>) -> Seq<SubscriberModel> {
    subscribers.map_values(|subscriber: Subscription| subscriber@)
}

/// One emission: every open subscriber gets the event at the end of its
/// queue, and the subscribers found closed are dropped from the list.
pub open spec fn deliver(subscribers: Seq<SubscriberModel>, event: EventModel) -> Seq<
    SubscriberModel,
>
    decreases subscribers.len(),
{
    if subscribers.len() == 0 {
        Seq::<SubscriberModel>::empty()
    } else {
        let rest = deliver(subscribers.drop_last(), event);
        let last = subscribers.last();
        if last.open {
            rest.push(SubscriberModel { pending: last.pending.push(event), ..last })
        } else {
            rest
        }
    }
}

/// Emissions of several events, in order.
pub open spec fn deliver_all(subscribers: Seq<SubscriberModel>, events: Seq<EventModel>) -> Seq<
    SubscriberModel,
>
    decreases events.len(),
{
    if events.len() == 0 {
        subscribers
    } else {
        deliver(deliver_all(subscribers, events.drop_last()), events.last())
    }
}

/// Marks the subscribers with this id as closed; nothing else changes.
pub open spec fn close_subscriber(subscribers: Seq<SubscriberModel>, id: u64) -> Seq<
    SubscriberModel,
> {
    subscribers.map_values(
        |subscriber: SubscriberModel|
            if subscriber.id == id {
                SubscriberModel { open: false, ..subscriber }
            } else {
                subscriber
            },
    )
}

/// The ids of a list of subscribers.
pub open spec fn subscriber_ids(subscribers: Seq<SubscriberModel>) -> Seq<u64> {
    subscribers.map_values(|subscriber: SubscriberModel| subscriber.id)
}

/// The subscriber with its queue emptied.
pub open spec fn drained(subscriber: SubscriberModel) -> SubscriberModel {
    SubscriberModel { pending: Seq::<EventModel>::empty(), ..subscriber }
}

impl Subscription {
    /// A new open subscriber with nothing pending.
    pub fn new(id: u64) -> (subscription: Self)
        ensures
            subscription@ == (SubscriberModel {
                id,
                open: true,
                pending: Seq::<EventModel>::empty(),
            }),
    {
        let subscription = Self { id, open: true, pending: Vec::new() };
        assert(event_views(subscription.pending@) =~= Seq::<EventModel>::empty());
        subscription
    }

    pub fn id(&self) -> (id: u64)
        ensures
            id == self@.id,
    {
        self.id
    }

    pub fn is_open(&self) -> (open: bool)
        ensures
            open == self@.open,
    {
        self.open
    }

    /// The receiving side is gone: the next emission drops this subscriber.
    pub fn close(&mut self)
        ensures
            final(self)@ == (SubscriberModel { open: false, ..old(self)@ }),
    {
        self.open = false;
    }

    /// Adds an event at the end of the queue.
    pub fn push(&mut self, event: SerialPortEvent)
        ensures
            final(self)@ == (SubscriberModel {
                pending: old(self)@.pending.push(event@),
                ..old(self)@
            }),
    {
        self.pending.push(event);
        assert(event_views(self.pending@) =~= event_views(old(self).pending@).push(event@));
    }

    /// Hands out what is pending, oldest first, and leaves the queue empty.
    pub fn take(&mut self) -> (events: Vec<SerialPortEvent>)
        ensures
            event_views(events@) == old(self)@.pending,
            final(self)@ == (SubscriberModel {
                pending: Seq::<EventModel>::empty(),
                ..old(self)@
            }),
    {
        let mut events: Vec<SerialPortEvent> = Vec::new();
        std::mem::swap(&mut events, &mut self.pending);
        assert(event_views(self.pending@) =~= Seq::<EventModel>::empty());
        events
    }
}

/// Emits one event to a list of subscribers.
pub fn deliver_event(subscribers: &mut Vec<Subscription>, event: &SerialPortEvent)
    ensures
        subscriber_views(final(subscribers)@) == deliver(
            subscriber_views(old(subscribers)@),
            event@,
        ),
{
    let ghost before = subscriber_views(subscribers@);
    let ghost mut seen: int = 0;
    let mut i: usize = 0;
    assert(before.take(0) =~= Seq::<SubscriberModel>::empty());
    assert(subscriber_views(subscribers@) =~= deliver(before.take(0), event@) + before.skip(0));
    while i < subscribers.len()
        invariant
            0 <= seen <= before.len(),
            i == deliver(before.take(seen), event@).len(),
            subscriber_views(subscribers@) == deliver(before.take(seen), event@) + before.skip(
                seen,
            ),
        decreases before.len() - seen,
    {
        let ghost current = subscriber_views(subscribers@);
        let ghost done = deliver(before.take(seen), event@);
        assert(current.len() == subscribers@.len());
        assert(seen < before.len());
        assert(current[i as int] == before[seen]);
        assert(before.take(seen + 1).drop_last() =~= before.take(seen));
        assert(before.take(seen + 1).last() == before[seen]);
        if subscribers[i].is_open() {
            subscribers[i].push(event.duplicate());
            assert(subscriber_views(subscribers@) =~= deliver(before.take(seen + 1), event@)
                + before.skip(seen + 1)) by {
                let now = subscriber_views(subscribers@);
                let target = deliver(before.take(seen + 1), event@) + before.skip(seen + 1);
                assert(now.len() == target.len());
                assert forall|j: int| 0 <= j < now.len() implies now[j] == target[j] by {
                    if j != i as int {
                        assert(now[j] == current[j]);
                    }
                }
            }
            i += 1;
        } else {
            subscribers.remove(i);
            assert(subscriber_views(subscribers@) =~= deliver(before.take(seen + 1), event@)
                + before.skip(seen + 1)) by {
                let now = subscriber_views(subscribers@);
                let target = deliver(before.take(seen + 1), event@) + before.skip(seen + 1);
                assert(now.len() == target.len());
                assert forall|j: int| 0 <= j < now.len() implies now[j] == target[j] by {
                    if j < i as int {
                        assert(now[j] == current[j]);
                    } else {
                        assert(now[j] == current[j + 1]);
                    }
                }
            }
        }
        proof {
            seen = seen + 1;
        }
    }
    assert(before.take(seen) =~= before);
    assert(before.skip(seen) =~= Seq::<SubscriberModel>::empty());
}

/// Marks the subscribers with this id as closed.
pub fn close_subscription(subscribers: &mut Vec<Subscription>, id: u64)
    ensures
        subscriber_views(final(subscribers)@) == close_subscriber(
            subscriber_views(old(subscribers)@),
            id,
        ),
{
    let ghost before = subscriber_views(subscribers@);
    let mut i: usize = 0;
    while i < subscribers.len()
        invariant
            i <= subscribers@.len(),
            subscribers@.len() == before.len(),
            forall|j: int|
                0 <= j < i ==> subscriber_views(subscribers@)[j] == close_subscriber(before, id)[j],
            forall|j: int| i <= j < before.len() ==> subscriber_views(subscribers@)[j] == before[j],
        decreases subscribers@.len() - i,
    {
        let ghost current = subscriber_views(subscribers@);
        if subscribers[i].id() == id {
            subscribers[i].close();
        }
        assert forall|j: int| 0 <= j < before.len() && j != i implies subscriber_views(
            subscribers@,
        )[j] == current[j] by {}
        i += 1;
    }
    assert(subscriber_views(subscribers@) =~= close_subscriber(before, id));
}

/// Takes what is pending for the first subscriber with this id. Without
/// such a subscriber nothing is taken and nothing changes.
pub fn take_pending(subscribers: &mut Vec<Subscription>, id: u64) -> (events: Vec<SerialPortEvent>)
    ensures
        ({
            let before = subscriber_views(old(subscribers)@);
            let at = position_of(subscriber_ids(before), id);
            if at < before.len() {
                &&& event_views(events@) == before[at].pending
                &&& subscriber_views(final(subscribers)@) == before.update(at, drained(before[at]))
            } else {
                &&& events@.len() == 0
                &&& subscriber_views(final(subscribers)@) == before
            }
        }),
{
    let ghost before = subscriber_views(subscribers@);
    let ghost ids = subscriber_ids(before);
    let mut i: usize = 0;
    while i < subscribers.len()
        invariant
            i <= subscribers@.len(),
            before == subscriber_views(subscribers@),
            before == subscriber_views(old(subscribers)@),
            ids == subscriber_ids(before),
            forall|j: int| 0 <= j < i ==> ids[j] != id,
        decreases subscribers@.len() - i,
    {
        if subscribers[i].id() == id {
            proof {
                lemma_position_of(ids, id, i as int);
                assert(before[i as int] == subscribers@[i as int]@);
            }
            let events = subscribers[i].take();
            assert(subscriber_views(subscribers@)[i as int] == subscribers@[i as int]@);
            assert(subscriber_views(subscribers@) =~= before.update(
                i as int,
                drained(before[i as int]),
            ));
            return events;
        }
        i += 1;
    }
    proof {
        lemma_position_of(ids, id, i as int);
    }
    Vec::new()
}

} // verus!
