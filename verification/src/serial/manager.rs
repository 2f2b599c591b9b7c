//! The registry of channels: who is registered, who is watched, and who is
//! told about it.

use vstd::prelude::*;
pub use crate::serial::events::SerialPortEvent;
use crate::serial::base::{
    after_acquire,
    after_open_request,
    after_process,
    after_receive,
    cancelled_channel,
    channel_views,
    channel_wf,
    channels_wf,
    closed_channel,
    find_port,
    fresh_channel,
    fresh_scpi_channel,
    lemma_channels_wf_push,
    lemma_channels_wf_remove,
    lemma_channels_wf_update,
    port_names,
    receive_action,
    scope_cancelled,
    ChannelError,
    ChannelModel,
    OpenStep,
    ReceiveAction,
    ReceiveEvent,
    ReceivedData,
    SerialPortManager,
};
use crate::serial::lists::{
    distinct,
    find_name,
    lemma_distinct_push,
    lemma_position_of_bounds,
    names_of,
    position_of,
};
use crate::serial::discovery::{
    adopt_available,
    deliver_events,
    discovery_cycle,
    port_list,
    reconnect_watched,
    remove_missing,
    report_status,
};
use crate::serial::events::{
    close_subscriber,
    close_subscription,
    deliver,
    deliver_all,
    deliver_event,
    drained,
    event_views,
    subscriber_ids,
    subscriber_views,
    take_pending,
    EventModel,
    SubscriberModel,
    Subscription,
};

verus! {

/// Baud rate of a channel registered by `add_port_with_defaults`.
pub const DEFAULT_BAUD_RATE: u32 = 115200;

/// Read timeout of such a channel, in milliseconds.
pub const DEFAULT_READ_TIMEOUT_MS: u64 = 200;

/// Queue length of such a channel.
pub const DEFAULT_BUFFER_SIZE: usize = 8;

/// Time that `close_all` leaves the background tasks to notice the
/// cancellation before the handles are released, in milliseconds.
pub const CLOSE_GRACE_MS: u64 = 1000;

/// Why a registry operation did not go through.
#[derive(Debug, Clone, PartialEq, Eq)]
pub enum RegistryError {
    /// A channel with this port identifier is registered already.
    AlreadyRegistered { port: String },
    /// No channel with this port identifier is registered.
    NotFound { port: String },
    /// The channel was found and refused.
    Channel(ChannelError),
}

/// A handle the driver has to acquire, for `open_all`.
#[derive(Debug, PartialEq, Eq)]
pub struct OpenRequest {
    pub port_path: String,
    pub baud_rate: u32,
}

/// An open request as contracts see it.
pub struct OpenRequestModel {
    pub port_path: Seq<char>,
    pub baud_rate: u32,
}

impl View for OpenRequest {
    type V = OpenRequestModel;

    open spec fn view(&self) -> OpenRequestModel {
        OpenRequestModel { port_path: self.port_path@, baud_rate: self.baud_rate }
    }
}

/// The open requests of a list, each as contracts see it.
pub open spec fn open_request_views(requests: Seq<OpenRequest>) -> Seq<OpenRequestModel> {
    requests.map_values(|request: OpenRequest| request@)
}

/// Bytes the driver has to write to one port, for `send_data_to_all`.
#[derive(Debug, PartialEq, Eq)]
pub struct SendRequest {
    pub port_path: String,
    pub data: Vec<u8>,
}

/// A send request as contracts see it.
pub struct SendRequestModel {
    pub port_path: Seq<char>,
    pub data: Seq<u8>,
}

impl View for SendRequest {
    type V = SendRequestModel;

    open spec fn view(&self) -> SendRequestModel {
        SendRequestModel { port_path: self.port_path@, data: self.data@ }
    }
}

/// The send requests of a list, each as contracts see it.
pub open spec fn send_request_views(requests: Seq<SendRequest>) -> Seq<SendRequestModel> {
    requests.map_values(|request: SendRequest| request@)
}

/// What one discovery cycle hands to the driver.
#[derive(Debug, PartialEq, Eq)]
pub struct CycleOutcome {
    /// The events of the cycle, in the order they were emitted.
    pub events: Vec<SerialPortEvent>,
    /// Whether a port was registered again, so that all ports were opened.
    pub reopened: bool,
    /// The handles to acquire, where ports were opened.
    pub open_requests: Vec<OpenRequest>,
}

/// The registry as contracts see it.
pub struct RegistryModel {
    /// The registered channels, in the order they were added.
    pub ports: Seq<ChannelModel>,
    /// The watched port identifiers, in the order they were added.
    pub watched: Seq<Seq<char>>,
    /// The registry-wide cancellation scope has been signalled.
    pub cancelled: bool,
    pub subscribers: Seq<SubscriberModel>,
    /// The id the next subscriber gets.
    pub next_subscriber: u64,
}

/// Directory of channels with the set of watched ports and the subscribers
/// to its lifecycle events.
#[derive(Debug)]
pub struct SerialPortRegistry {
    ports: Vec<SerialPortManager>,
    task_ports: Vec<String>,
    cancelled: bool,
    subscribers: Vec<Subscription>,
    next_subscriber: u64,
}

impl View for SerialPortRegistry {
    type V = RegistryModel;

    closed spec fn view(&self) -> RegistryModel {
        RegistryModel {
            ports: channel_views(self.ports@),
            watched: names_of(self.task_ports@),
            cancelled: self.cancelled,
            subscribers: subscriber_views(self.subscribers@),
            next_subscriber: self.next_subscriber,
        }
    }
}

/// What holds of every registry: no port is registered twice or watched
/// twice, every channel is well-formed, a cancelled registry has only
/// cancelled channels, and every subscriber's id was handed out.
pub open spec fn registry_wf(registry: RegistryModel) -> bool {
    &&& channels_wf(registry.ports, registry.cancelled)
    &&& distinct(registry.watched)
    &&& forall|i: int|
        0 <= i < registry.subscribers.len() ==> (#[trigger] registry.subscribers[i]).id
            < registry.next_subscriber
}

/// What `open_all` does to one channel: a channel that is not connected but
/// holds its handle becomes connected; every other channel stays as it is.
pub open spec fn opened_if_closed(channel: ChannelModel) -> ChannelModel {
    if channel.connected {
        channel
    } else {
        after_open_request(channel)
    }
}

/// The handles `open_all` asks for: one for each channel that is neither
/// connected nor holding its handle, in registry order.
pub open spec fn open_requests(ports: Seq<ChannelModel>) -> Seq<OpenRequestModel>
    decreases ports.len(),
{
    if ports.len() == 0 {
        Seq::<OpenRequestModel>::empty()
    } else {
        let rest = open_requests(ports.drop_last());
        let last = ports.last();
        if !last.connected && !last.port_present {
            rest.push(OpenRequestModel { port_path: last.port_path, baud_rate: last.baud_rate })
        } else {
            rest
        }
    }
}

/// The writes `send_data_to_all` asks for: one for each connected channel, in
/// registry order.
pub open spec fn send_requests(ports: Seq<ChannelModel>, data: Seq<u8>) -> Seq<SendRequestModel>
    decreases ports.len(),
{
    if ports.len() == 0 {
        Seq::<SendRequestModel>::empty()
    } else {
        let rest = send_requests(ports.drop_last(), data);
        let last = ports.last();
        if last.connected && last.port_present {
            rest.push(SendRequestModel { port_path: last.port_path, data })
        } else {
            rest
        }
    }
}

/// Runs the first half of opening on every channel that is not connected.
fn open_channels(ports: &mut Vec<SerialPortManager>) -> (requests: Vec<OpenRequest>)
    ensures
        channel_views(final(ports)@) == channel_views(old(ports)@).map_values(
            |channel: ChannelModel| opened_if_closed(channel),
        ),
        open_request_views(requests@) == open_requests(channel_views(old(ports)@)),
{
    let ghost before = channel_views(ports@);
    let mut requests: Vec<OpenRequest> = Vec::new();
    let mut i: usize = 0;
    assert(before.take(0) =~= Seq::<ChannelModel>::empty());
    assert(open_request_views(requests@) =~= open_requests(before.take(0)));
    while i < ports.len()
        invariant
            i <= ports@.len(),
            ports@.len() == before.len(),
            forall|j: int|
                0 <= j < i ==> channel_views(ports@)[j] == opened_if_closed(before[j]),
            forall|j: int| i <= j < before.len() ==> channel_views(ports@)[j] == before[j],
            open_request_views(requests@) == open_requests(before.take(i as int)),
        decreases ports@.len() - i,
    {
        let ghost current = channel_views(ports@);
        let ghost asked = open_request_views(requests@);
        assert(current[i as int] == ports@[i as int]@);
        assert(before.take(i + 1).drop_last() =~= before.take(i as int));
        if !ports[i].is_open() {
            match ports[i].open() {
                OpenStep::AlreadyOpen => {},
                OpenStep::Acquire { port_path, baud_rate } => {
                    requests.push(OpenRequest { port_path, baud_rate });
                    assert(open_request_views(requests@) =~= asked.push(
                        OpenRequestModel {
                            port_path: before[i as int].port_path,
                            baud_rate: before[i as int].baud_rate,
                        },
                    ));
                },
            }
        }
        assert(channel_views(ports@)[i as int] == ports@[i as int]@);
        assert forall|j: int| 0 <= j < before.len() implies channel_views(ports@)[j] == (if j
            <= i {
            opened_if_closed(before[j])
        } else {
            before[j]
        }) by {
            if j != i {
                assert(channel_views(ports@)[j] == ports@[j]@);
                assert(current[j] == ports@[j]@);
            }
        }
        i += 1;
    }
    assert(before.take(i as int) =~= before);
    assert(channel_views(ports@) =~= before.map_values(
        |channel: ChannelModel| opened_if_closed(channel),
    ));
    requests
}

/// Signals the cancellation scope of every channel.
fn cancel_channels(ports: &mut Vec<SerialPortManager>)
    ensures
        channel_views(final(ports)@) == channel_views(old(ports)@).map_values(
            |channel: ChannelModel| scope_cancelled(channel),
        ),
{
    let ghost before = channel_views(ports@);
    let mut i: usize = 0;
    while i < ports.len()
        invariant
            i <= ports@.len(),
            ports@.len() == before.len(),
            forall|j: int| 0 <= j < i ==> channel_views(ports@)[j] == scope_cancelled(before[j]),
            forall|j: int| i <= j < before.len() ==> channel_views(ports@)[j] == before[j],
        decreases ports@.len() - i,
    {
        let ghost current = channel_views(ports@);
        assert(current[i as int] == ports@[i as int]@);
        ports[i].parent_cancelled();
        assert(channel_views(ports@)[i as int] == ports@[i as int]@);
        assert forall|j: int| 0 <= j < before.len() implies channel_views(ports@)[j] == (if j
            <= i {
            scope_cancelled(before[j])
        } else {
            before[j]
        }) by {
            if j != i {
                assert(channel_views(ports@)[j] == ports@[j]@);
                assert(current[j] == ports@[j]@);
            }
        }
        i += 1;
    }
    assert(channel_views(ports@) =~= before.map_values(
        |channel: ChannelModel| scope_cancelled(channel),
    ));
}

/// Closes every channel.
fn close_channels(ports: &mut Vec<SerialPortManager>)
    ensures
        channel_views(final(ports)@) == channel_views(old(ports)@).map_values(
            |channel: ChannelModel| closed_channel(channel),
        ),
{
    let ghost before = channel_views(ports@);
    let mut i: usize = 0;
    while i < ports.len()
        invariant
            i <= ports@.len(),
            ports@.len() == before.len(),
            forall|j: int| 0 <= j < i ==> channel_views(ports@)[j] == closed_channel(before[j]),
            forall|j: int| i <= j < before.len() ==> channel_views(ports@)[j] == before[j],
        decreases ports@.len() - i,
    {
        let ghost current = channel_views(ports@);
        assert(current[i as int] == ports@[i as int]@);
        ports[i].close();
        assert(channel_views(ports@)[i as int] == ports@[i as int]@);
        assert forall|j: int| 0 <= j < before.len() implies channel_views(ports@)[j] == (if j
            <= i {
            closed_channel(before[j])
        } else {
            before[j]
        }) by {
            if j != i {
                assert(channel_views(ports@)[j] == ports@[j]@);
                assert(current[j] == ports@[j]@);
            }
        }
        i += 1;
    }
    assert(channel_views(ports@) =~= before.map_values(
        |channel: ChannelModel| closed_channel(channel),
    ));
}

impl SerialPortRegistry {
    /// An empty registry: nothing registered, nothing watched, nobody
    /// subscribed.
    pub fn new() -> (registry: Self)
        ensures
            registry@ == (RegistryModel {
                ports: Seq::<ChannelModel>::empty(),
                watched: Seq::<Seq<char>>::empty(),
                cancelled: false,
                subscribers: Seq::<SubscriberModel>::empty(),
                next_subscriber: 0,
            }),
            registry_wf(registry@),
    {
        let registry = Self {
            ports: Vec::new(),
            task_ports: Vec::new(),
            cancelled: false,
            subscribers: Vec::new(),
            next_subscriber: 0,
        };
        assert(registry@.ports =~= Seq::<ChannelModel>::empty());
        assert(registry@.watched =~= Seq::<Seq<char>>::empty());
        assert(registry@.subscribers =~= Seq::<SubscriberModel>::empty());
        registry
    }

    /// Emits one event: every open subscriber gets it, closed ones are
    /// dropped.
    pub fn emit_event(&mut self, event: SerialPortEvent)
        requires
            registry_wf(old(self)@),
        ensures
            final(self)@ == (RegistryModel {
                subscribers: deliver(old(self)@.subscribers, event@),
                ..old(self)@
            }),
            registry_wf(final(self)@),
    {
        deliver_event(&mut self.subscribers, &event);
        proof {
            lemma_deliver_keeps_ids(old(self)@.subscribers, event@, old(self)@.next_subscriber);
        }
    }

    /// Adds a port to the watched set, registered or not. A port that is
    /// watched already is left alone and nothing is emitted; otherwise
    /// `PortAddedToMonitoring` is emitted once.
    pub fn add_task_port(&mut self, port: &str)
        requires
            registry_wf(old(self)@),
        ensures
            final(self)@ == if old(self)@.watched.contains(port@) {
                old(self)@
            } else {
                RegistryModel {
                    watched: old(self)@.watched.push(port@),
                    subscribers: deliver(
                        old(self)@.subscribers,
                        EventModel::AddedToMonitoring { port: port@ },
                    ),
                    ..old(self)@
                }
            },
            registry_wf(final(self)@),
    {
        let name = port.to_owned();
        proof {
            lemma_position_of_bounds(self@.watched, port@);
        }
        if find_name(&self.task_ports, &name) == self.task_ports.len() {
            let event = SerialPortEvent::PortAddedToMonitoring { port: name.clone() };
            self.task_ports.push(name);
            proof {
                assert(self@.watched =~= old(self)@.watched.push(port@));
                lemma_distinct_push(old(self)@.watched, port@);
            }
            self.emit_event(event);
        }
    }

    /// Adds a subscriber, which sees the events emitted from now on. The
    /// result is its id; there is none once every id has been handed out.
    pub fn subscribe_events(&mut self) -> (id: Option<u64>)
        requires
            registry_wf(old(self)@),
        ensures
            old(self)@.next_subscriber < u64::MAX ==> id == Some(old(self)@.next_subscriber)
                && final(self)@ == (RegistryModel {
                subscribers: old(self)@.subscribers.push(
                    SubscriberModel {
                        id: old(self)@.next_subscriber,
                        open: true,
                        pending: Seq::<EventModel>::empty(),
                    },
                ),
                next_subscriber: (old(self)@.next_subscriber + 1) as u64,
                ..old(self)@
            }),
            old(self)@.next_subscriber == u64::MAX ==> id is None && final(self)@ == old(self)@,
            registry_wf(final(self)@),
    {
        if self.next_subscriber == u64::MAX {
            return None;
        }
        let id = self.next_subscriber;
        self.subscribers.push(Subscription::new(id));
        self.next_subscriber = id + 1;
        assert(self@.subscribers =~= old(self)@.subscribers.push(
            SubscriberModel { id, open: true, pending: Seq::<EventModel>::empty() },
        ));
        Some(id)
    }

    /// Records that a subscriber's receiving side is gone. It is dropped at
    /// the next emission, not before.
    pub fn unsubscribe(&mut self, id: u64)
        requires
            registry_wf(old(self)@),
        ensures
            final(self)@ == (RegistryModel {
                subscribers: close_subscriber(old(self)@.subscribers, id),
                ..old(self)@
            }),
            registry_wf(final(self)@),
    {
        close_subscription(&mut self.subscribers, id);
    }

    /// Hands out the events delivered to a subscriber since it last took
    /// them, oldest first.
    pub fn take_events(&mut self, id: u64) -> (events: Vec<SerialPortEvent>)
        requires
            registry_wf(old(self)@),
        ensures
            ({
                let before = old(self)@.subscribers;
                let at = position_of(subscriber_ids(before), id);
                if at < before.len() {
                    &&& event_views(events@) == before[at].pending
                    &&& final(self)@ == (RegistryModel {
                        subscribers: before.update(at, drained(before[at])),
                        ..old(self)@
                    })
                } else {
                    &&& events@.len() == 0
                    &&& final(self)@ == old(self)@
                }
            }),
            registry_wf(final(self)@),
    {
        proof {
            lemma_position_of_bounds(subscriber_ids(self@.subscribers), id);
        }
        take_pending(&mut self.subscribers, id)
    }

    /// Registers a channel with background ingestion. A port identifier that
    /// is registered already is refused.
    pub fn add_port(
        &mut self,
        port_path: &str,
        baud_rate: u32,
        read_timeout_ms: u64,
        data_channel_buffer_size: usize,
    ) -> (result: Result<(), RegistryError>)
        requires
            registry_wf(old(self)@),
        ensures
            port_names(old(self)@.ports).contains(port_path@) ==> final(self)@ == old(self)@ && (
            result matches Err(RegistryError::AlreadyRegistered { port }) && port@ == port_path@),
            !port_names(old(self)@.ports).contains(port_path@) ==> result is Ok && final(self)@ == (
            RegistryModel {
                ports: old(self)@.ports.push(
                    fresh_channel(
                        port_path@,
                        baud_rate,
                        read_timeout_ms,
                        data_channel_buffer_size,
                        true,
                        old(self)@.cancelled,
                    ),
                ),
                ..old(self)@
            }),
            registry_wf(final(self)@),
    {
        let channel = SerialPortManager::new(
            port_path,
            baud_rate,
            read_timeout_ms,
            self.cancelled,
            data_channel_buffer_size,
            true,
        );
        self.insert(port_path, channel)
    }

    /// Registers a channel with the default baud rate, read timeout and queue
    /// length.
    pub fn add_port_with_defaults(&mut self, port_path: &str) -> (result: Result<(), RegistryError>)
        requires
            registry_wf(old(self)@),
        ensures
            port_names(old(self)@.ports).contains(port_path@) ==> final(self)@ == old(self)@ && (
            result matches Err(RegistryError::AlreadyRegistered { port }) && port@ == port_path@),
            !port_names(old(self)@.ports).contains(port_path@) ==> result is Ok && final(self)@ == (
            RegistryModel {
                ports: old(self)@.ports.push(
                    fresh_channel(
                        port_path@,
                        DEFAULT_BAUD_RATE,
                        DEFAULT_READ_TIMEOUT_MS,
                        DEFAULT_BUFFER_SIZE,
                        true,
                        old(self)@.cancelled,
                    ),
                ),
                ..old(self)@
            }),
            registry_wf(final(self)@),
    {
        self.add_port(port_path, DEFAULT_BAUD_RATE, DEFAULT_READ_TIMEOUT_MS, DEFAULT_BUFFER_SIZE)
    }

    /// Registers a channel for transactions only, without background
    /// ingestion. A port identifier that is registered already is refused.
    pub fn add_scpi_port(&mut self, port_path: &str, baud_rate: u32) -> (result: Result<
        (),
        RegistryError,
    >)
        requires
            registry_wf(old(self)@),
        ensures
            port_names(old(self)@.ports).contains(port_path@) ==> final(self)@ == old(self)@ && (
            result matches Err(RegistryError::AlreadyRegistered { port }) && port@ == port_path@),
            !port_names(old(self)@.ports).contains(port_path@) ==> result is Ok && final(self)@ == (
            RegistryModel {
                ports: old(self)@.ports.push(
                    fresh_scpi_channel(port_path@, baud_rate, old(self)@.cancelled),
                ),
                ..old(self)@
            }),
            registry_wf(final(self)@),
    {
        let channel = SerialPortManager::new_for_scpi(port_path, baud_rate, self.cancelled);
        self.insert(port_path, channel)
    }

    /// Puts a new channel into the registry unless its port is there already.
    fn insert(&mut self, port_path: &str, channel: SerialPortManager) -> (result: Result<
        (),
        RegistryError,
    >)
        requires
            registry_wf(old(self)@),
            channel_wf(channel@),
            channel@.port_path == port_path@,
            old(self)@.cancelled ==> channel@.cancelled,
        ensures
            port_names(old(self)@.ports).contains(port_path@) ==> final(self)@ == old(self)@ && (
            result matches Err(RegistryError::AlreadyRegistered { port }) && port@ == port_path@),
            !port_names(old(self)@.ports).contains(port_path@) ==> result is Ok && final(self)@ == (
            RegistryModel { ports: old(self)@.ports.push(channel@), ..old(self)@ }),
            registry_wf(final(self)@),
    {
        let name = port_path.to_owned();
        proof {
            lemma_position_of_bounds(port_names(self@.ports), port_path@);
        }
        if find_port(&self.ports, &name) < self.ports.len() {
            return Err(RegistryError::AlreadyRegistered { port: name });
        }
        self.ports.push(channel);
        proof {
            assert(self@.ports =~= old(self)@.ports.push(channel@));
            lemma_channels_wf_push(old(self)@.ports, channel@, self@.cancelled);
        }
        Ok(())
    }

    /// The channel registered for a port, if there is one.
    pub fn get_port(&self, port_path: &str) -> (found: Option<&SerialPortManager>)
        ensures
            ({
                let at = position_of(port_names(self@.ports), port_path@);
                if at < self@.ports.len() {
                    found matches Some(channel) && channel@ == self@.ports[at]
                } else {
                    found is None
                }
            }),
            found is Some <==> port_names(self@.ports).contains(port_path@),
    {
        let name = port_path.to_owned();
        proof {
            lemma_position_of_bounds(port_names(self@.ports), port_path@);
        }
        let at = find_port(&self.ports, &name);
        if at < self.ports.len() {
            assert(self@.ports[at as int] == self.ports@[at as int]@);
            Some(&self.ports[at])
        } else {
            None
        }
    }

    /// Whether a port is registered and its channel connected.
    pub fn is_connected(&self, port_path: &str) -> (connected: bool)
        ensures
            ({
                let at = position_of(port_names(self@.ports), port_path@);
                connected == (at < self@.ports.len() && self@.ports[at].connected)
            }),
    {
        match self.get_port(port_path) {
            Some(channel) => channel.is_open(),
            None => false,
        }
    }

    /// Takes a port out of the registry. Its channel is closed and its tasks
    /// are cancelled for good before it is handed back.
    pub fn remove_port(&mut self, port_path: &str) -> (removed: Option<SerialPortManager>)
        requires
            registry_wf(old(self)@),
        ensures
            ({
                let at = position_of(port_names(old(self)@.ports), port_path@);
                if at < old(self)@.ports.len() {
                    &&& removed matches Some(channel) && channel@ == cancelled_channel(
                        old(self)@.ports[at],
                    )
                    &&& final(self)@ == (RegistryModel {
                        ports: old(self)@.ports.remove(at),
                        ..old(self)@
                    })
                } else {
                    &&& removed is None
                    &&& final(self)@ == old(self)@
                }
            }),
            !port_names(final(self)@.ports).contains(port_path@),
            registry_wf(final(self)@),
    {
        let name = port_path.to_owned();
        proof {
            lemma_position_of_bounds(port_names(self@.ports), port_path@);
        }
        let at = find_port(&self.ports, &name);
        if at < self.ports.len() {
            assert(self@.ports[at as int] == self.ports@[at as int]@);
            let mut channel = self.ports.remove(at);
            channel.cancel_tasks();
            proof {
                assert(self@.ports =~= old(self)@.ports.remove(at as int));
                lemma_channels_wf_remove(old(self)@.ports, at as int, self@.cancelled);
            }
            Some(channel)
        } else {
            None
        }
    }

    /// First half of opening every channel that is not connected. A channel
    /// that still holds its handle is connected at once; for each of the
    /// others the driver is asked to acquire the handle and to report with
    /// `finish_open`.
    pub fn open_all(&mut self) -> (requests: Vec<OpenRequest>)
        requires
            registry_wf(old(self)@),
        ensures
            final(self)@ == (RegistryModel {
                ports: old(self)@.ports.map_values(
                    |channel: ChannelModel| opened_if_closed(channel),
                ),
                ..old(self)@
            }),
            open_request_views(requests@) == open_requests(old(self)@.ports),
            registry_wf(final(self)@),
    {
        let requests = open_channels(&mut self.ports);
        proof {
            assert(port_names(self@.ports) =~= port_names(old(self)@.ports));
            assert forall|i: int| 0 <= i < self@.ports.len() implies channel_wf(
                #[trigger] self@.ports[i],
            ) && (self@.cancelled ==> self@.ports[i].cancelled) by {
                assert(self@.ports[i] == opened_if_closed(old(self)@.ports[i]));
            }
        }
        requests
    }

    /// Second half of opening one channel: takes what acquiring its handle
    /// came to. A port that has left the registry meanwhile is not found.
    pub fn finish_open(&mut self, port_path: &str, acquired: Result<(), String>) -> (result: Result<
        (),
        RegistryError,
    >)
        requires
            registry_wf(old(self)@),
        ensures
            ({
                let at = position_of(port_names(old(self)@.ports), port_path@);
                if at < old(self)@.ports.len() {
                    &&& final(self)@ == (RegistryModel {
                        ports: old(self)@.ports.update(
                            at,
                            after_acquire(old(self)@.ports[at], acquired is Ok),
                        ),
                        ..old(self)@
                    })
                    &&& match acquired {
                        Ok(_) => result is Ok,
                        Err(cause) => result == Err::<(), RegistryError>(
                            RegistryError::Channel(ChannelError::Io(cause)),
                        ),
                    }
                } else {
                    &&& final(self)@ == old(self)@
                    &&& result matches Err(RegistryError::NotFound { port }) && port@ == port_path@
                }
            }),
            registry_wf(final(self)@),
    {
        let name = port_path.to_owned();
        proof {
            lemma_position_of_bounds(port_names(self@.ports), port_path@);
        }
        let at = find_port(&self.ports, &name);
        if at < self.ports.len() {
            assert(self@.ports[at as int] == self.ports@[at as int]@);
            let outcome = self.ports[at].finish_open(acquired);
            proof {
                assert(self@.ports[at as int] == self.ports@[at as int]@);
                assert(self@.ports =~= old(self)@.ports.update(
                    at as int,
                    after_acquire(old(self)@.ports[at as int], acquired is Ok),
                ));
                assert(port_names(self@.ports) =~= port_names(old(self)@.ports));
            }
            match outcome {
                Ok(_) => Ok(()),
                Err(error) => Err(RegistryError::Channel(error)),
            }
        } else {
            Err(RegistryError::NotFound { port: name })
        }
    }

    /// One decision of the ingestion task of a registered channel. For a port
    /// that has left the registry there is none: its task has been told to
    /// stop when it left.
    pub fn receive_step(&mut self, port_path: &str, event: ReceiveEvent) -> (action: Option<
        ReceiveAction,
    >)
        requires
            registry_wf(old(self)@),
        ensures
            ({
                let at = position_of(port_names(old(self)@.ports), port_path@);
                if at < old(self)@.ports.len() {
                    &&& action == Some(receive_action(old(self)@.ports[at], event))
                    &&& final(self)@ == (RegistryModel {
                        ports: old(self)@.ports.update(
                            at,
                            after_receive(old(self)@.ports[at], event),
                        ),
                        ..old(self)@
                    })
                } else {
                    &&& action is None
                    &&& final(self)@ == old(self)@
                }
            }),
            registry_wf(final(self)@),
    {
        let name = port_path.to_owned();
        proof {
            lemma_position_of_bounds(port_names(self@.ports), port_path@);
        }
        let at = find_port(&self.ports, &name);
        if at < self.ports.len() {
            assert(self@.ports[at as int] == self.ports@[at as int]@);
            let action = self.ports[at].receive_step(event);
            proof {
                let next = after_receive(old(self)@.ports[at as int], event);
                assert(self@.ports[at as int] == self.ports@[at as int]@);
                assert(self@.ports =~= old(self)@.ports.update(at as int, next));
                lemma_channels_wf_update(old(self)@.ports, at as int, next, self@.cancelled);
            }
            Some(action)
        } else {
            None
        }
    }

    /// One decision of the processing task of a registered channel: whether
    /// it goes on. For a port that has left the registry there is none.
    pub fn process_step(&mut self, port_path: &str, received: Option<ReceivedData>) -> (go_on:
        Option<bool>)
        requires
            registry_wf(old(self)@),
        ensures
            ({
                let at = position_of(port_names(old(self)@.ports), port_path@);
                if at < old(self)@.ports.len() {
                    &&& go_on == Some(!old(self)@.ports[at].cancelled)
                    &&& final(self)@ == (RegistryModel {
                        ports: old(self)@.ports.update(
                            at,
                            after_process(old(self)@.ports[at], received),
                        ),
                        ..old(self)@
                    })
                } else {
                    &&& go_on is None
                    &&& final(self)@ == old(self)@
                }
            }),
            registry_wf(final(self)@),
    {
        let name = port_path.to_owned();
        proof {
            lemma_position_of_bounds(port_names(self@.ports), port_path@);
        }
        let at = find_port(&self.ports, &name);
        if at < self.ports.len() {
            assert(self@.ports[at as int] == self.ports@[at as int]@);
            let go_on = self.ports[at].process_step(received);
            proof {
                let next = after_process(old(self)@.ports[at as int], received);
                assert(self@.ports[at as int] == self.ports@[at as int]@);
                assert(self@.ports =~= old(self)@.ports.update(at as int, next));
                lemma_channels_wf_update(old(self)@.ports, at as int, next, self@.cancelled);
            }
            Some(go_on)
        } else {
            None
        }
    }

    /// First half of closing everything: signals the registry-wide
    /// cancellation scope, and with it the scope of every channel. The result
    /// is the time, in milliseconds, to leave the background tasks before
    /// `finish_close_all` releases the handles.
    pub fn close_all(&mut self) -> (grace_ms: u64)
        requires
            registry_wf(old(self)@),
        ensures
            grace_ms == CLOSE_GRACE_MS,
            final(self)@ == (RegistryModel {
                ports: old(self)@.ports.map_values(
                    |channel: ChannelModel| scope_cancelled(channel),
                ),
                cancelled: true,
                ..old(self)@
            }),
            forall|i: int|
                0 <= i < final(self)@.ports.len() ==> (#[trigger] final(self)@.ports[i]).cancelled,
            registry_wf(final(self)@),
    {
        self.cancelled = true;
        cancel_channels(&mut self.ports);
        proof {
            assert(port_names(self@.ports) =~= port_names(old(self)@.ports));
            assert forall|i: int| 0 <= i < self@.ports.len() implies channel_wf(
                #[trigger] self@.ports[i],
            ) && self@.ports[i].cancelled by {
                assert(self@.ports[i] == scope_cancelled(old(self)@.ports[i]));
            }
        }
        CLOSE_GRACE_MS
    }

    /// Second half of closing everything: closes every channel.
    pub fn finish_close_all(&mut self)
        requires
            registry_wf(old(self)@),
        ensures
            final(self)@ == (RegistryModel {
                ports: old(self)@.ports.map_values(|channel: ChannelModel| closed_channel(channel)),
                ..old(self)@
            }),
            forall|i: int|
                0 <= i < final(self)@.ports.len() ==> !(#[trigger] final(self)@.ports[i]).connected,
            registry_wf(final(self)@),
    {
        close_channels(&mut self.ports);
        proof {
            assert(port_names(self@.ports) =~= port_names(old(self)@.ports));
            assert forall|i: int| 0 <= i < self@.ports.len() implies channel_wf(
                #[trigger] self@.ports[i],
            ) && !self@.ports[i].connected && (self@.cancelled ==> self@.ports[i].cancelled) by {
                assert(self@.ports[i] == closed_channel(old(self)@.ports[i]));
            }
        }
    }

    /// Decides a send to one port: the port must be registered and its
    /// channel connected. The bytes to write are handed out.
    pub fn send_data(&self, port_path: &str, data: &[u8]) -> (result: Result<
        Vec<u8>,
        RegistryError,
    >)
        ensures
            ({
                let at = position_of(port_names(self@.ports), port_path@);
                if at >= self@.ports.len() {
                    result matches Err(RegistryError::NotFound { port }) && port@ == port_path@
                } else if self@.ports[at].connected && self@.ports[at].port_present {
                    result matches Ok(bytes) && bytes@ == data@
                } else {
                    result == Err::<Vec<u8>, RegistryError>(
                        RegistryError::Channel(ChannelError::NotOpen),
                    )
                }
            }),
    {
        match self.get_port(port_path) {
            Some(channel) => match channel.send(data) {
                Ok(bytes) => Ok(bytes),
                Err(error) => Err(RegistryError::Channel(error)),
            },
            None => Err(RegistryError::NotFound { port: port_path.to_owned() }),
        }
    }

    /// Decides a send to every port: each connected channel gets the bytes,
    /// the others are passed over.
    pub fn send_data_to_all(&self, data: &[u8]) -> (requests: Vec<SendRequest>)
        ensures
            send_request_views(requests@) == send_requests(self@.ports, data@),
    {
        let ghost views = self@.ports;
        let mut requests: Vec<SendRequest> = Vec::new();
        let mut i: usize = 0;
        assert(views.take(0) =~= Seq::<ChannelModel>::empty());
        assert(send_request_views(requests@) =~= send_requests(views.take(0), data@));
        while i < self.ports.len()
            invariant
                i <= self.ports@.len(),
                views == self@.ports,
                send_request_views(requests@) == send_requests(views.take(i as int), data@),
            decreases self.ports@.len() - i,
        {
            let ghost asked = send_request_views(requests@);
            assert(views[i as int] == self.ports@[i as int]@);
            assert(views.take(i + 1).drop_last() =~= views.take(i as int));
            match self.ports[i].send(data) {
                Ok(bytes) => {
                    let port_path = self.ports[i].get_port().to_owned();
                    requests.push(SendRequest { port_path, data: bytes });
                    assert(send_request_views(requests@) =~= asked.push(
                        SendRequestModel { port_path: views[i as int].port_path, data: data@ },
                    ));
                },
                Err(_) => {},
            }
            i += 1;
        }
        assert(views.take(i as int) =~= views);
        requests
    }

    /// Whether the registry-wide cancellation scope has been signalled; the
    /// discovery loop ends when it has.
    pub fn is_cancelled(&self) -> (cancelled: bool)
        ensures
            cancelled == self@.cancelled,
    {
        self.cancelled
    }

    /// The watched port identifiers, in the order they were added.
    pub fn task_ports(&self) -> (watched: &Vec<String>)
        ensures
            names_of(watched@) == self@.watched,
    {
        &self.task_ports
    }

    /// The registered port identifiers, in the order they were added.
    pub fn port_paths(&self) -> (paths: Vec<String>)
        ensures
            names_of(paths@) == port_names(self@.ports),
    {
        port_list(&self.ports)
    }

    /// One cycle of the discovery loop, given the ports the operating system
    /// lists. Registered ports that are gone are removed and cancelled;
    /// watched ports that are back are registered at the rediscovery baud
    /// rate; listed ports that nobody watches are adopted; every listed
    /// registered port reports its status. All events go to the subscribers
    /// in that order. If any port was registered again, all ports are opened,
    /// once, at the end.
    pub fn monitor_cycle(&mut self, available: &Vec<String>) -> (outcome: CycleOutcome)
        requires
            registry_wf(old(self)@),
        ensures
            ({
                let cycle = discovery_cycle(
                    old(self)@.ports,
                    old(self)@.watched,
                    old(self)@.cancelled,
                    names_of(available@),
                );
                &&& event_views(outcome.events@) == cycle.events
                &&& outcome.reopened == cycle.reopen
                &&& open_request_views(outcome.open_requests@) == if cycle.reopen {
                    open_requests(cycle.ports)
                } else {
                    Seq::<OpenRequestModel>::empty()
                }
                &&& final(self)@ == (RegistryModel {
                    ports: if cycle.reopen {
                        cycle.ports.map_values(|channel: ChannelModel| opened_if_closed(channel))
                    } else {
                        cycle.ports
                    },
                    watched: cycle.watched,
                    subscribers: deliver_all(old(self)@.subscribers, cycle.events),
                    ..old(self)@
                })
            }),
            registry_wf(final(self)@),
    {
        let registered = port_list(&self.ports);
        let mut events = remove_missing(&mut self.ports, available, self.cancelled);
        let (mut back, reopened) = reconnect_watched(
            &mut self.ports,
            available,
            &self.task_ports,
            &registered,
            self.cancelled,
        );
        let mut adopted = adopt_available(&mut self.task_ports, available);
        let mut status = report_status(&self.ports, available);
        let ghost removed_views = event_views(events@);
        let ghost back_views = event_views(back@);
        let ghost adopted_views = event_views(adopted@);
        let ghost status_views = event_views(status@);
        events.append(&mut back);
        events.append(&mut adopted);
        events.append(&mut status);
        assert(event_views(events@) =~= removed_views + back_views + adopted_views + status_views);
        deliver_events(&mut self.subscribers, &events);
        proof {
            lemma_deliver_all_keeps_ids(
                old(self)@.subscribers,
                event_views(events@),
                self@.next_subscriber,
            );
        }
        let ghost closed_ports = self@.ports;
        let requests = if reopened {
            open_channels(&mut self.ports)
        } else {
            Vec::new()
        };
        proof {
            assert(port_names(self@.ports) =~= port_names(closed_ports));
            assert forall|i: int| 0 <= i < self@.ports.len() implies channel_wf(
                #[trigger] self@.ports[i],
            ) && (self@.cancelled ==> self@.ports[i].cancelled) by {
                if reopened {
                    assert(self@.ports[i] == opened_if_closed(closed_ports[i]));
                }
            }
            assert(open_request_views(requests@) =~= if reopened {
                open_requests(closed_ports)
            } else {
                Seq::<OpenRequestModel>::empty()
            });
        }
        CycleOutcome { events, reopened, open_requests: requests }
    }
}

/// Once the registry-wide scope is cancelled, the background tasks of every
/// channel stop at their next decision, whatever woke them.
pub proof fn lemma_root_cancel_stops_every_task(
    ports: Seq<ChannelModel>,
    at: int,
    event: ReceiveEvent,
    received: Option<ReceivedData>,
)
    requires
        0 <= at < ports.len(),
    ensures
        ({
            let channel = ports.map_values(|channel: ChannelModel| scope_cancelled(channel))[at];
            &&& channel.cancelled
            &&& receive_action(channel, event) is Stop
            &&& after_receive(channel, event).cancelled
            &&& after_process(channel, received) == channel
        }),
{
}

/// Emissions hand no subscriber a new id.
proof fn lemma_deliver_all_keeps_ids(
    subscribers: Seq<SubscriberModel>,
    events: Seq<EventModel>,
    bound: u64,
)
    requires
        forall|i: int| 0 <= i < subscribers.len() ==> (#[trigger] subscribers[i]).id < bound,
    ensures
        forall|i: int|
            0 <= i < deliver_all(subscribers, events).len() ==> (#[trigger] deliver_all(
                subscribers,
                events,
            )[i]).id < bound,
    decreases events.len(),
{
    if events.len() > 0 {
        lemma_deliver_all_keeps_ids(subscribers, events.drop_last(), bound);
        lemma_deliver_keeps_ids(deliver_all(subscribers, events.drop_last()), events.last(), bound);
    }
}

/// Emission hands no subscriber a new id.
proof fn lemma_deliver_keeps_ids(subscribers: Seq<SubscriberModel>, event: EventModel, bound: u64)
    requires
        forall|i: int| 0 <= i < subscribers.len() ==> (#[trigger] subscribers[i]).id < bound,
    ensures
        forall|i: int|
            0 <= i < deliver(subscribers, event).len() ==> (#[trigger] deliver(
                subscribers,
                event,
            )[i]).id < bound,
    decreases subscribers.len(),
{
    if subscribers.len() > 0 {
        let shorter = subscribers.drop_last();
        assert forall|i: int| 0 <= i < shorter.len() implies (#[trigger] shorter[i]).id < bound by {
            assert(shorter[i] == subscribers[i]);
        }
        lemma_deliver_keeps_ids(shorter, event, bound);
        let rest = deliver(shorter, event);
        let all = deliver(subscribers, event);
        let last = subscribers[subscribers.len() - 1];
        assert forall|i: int| 0 <= i < all.len() implies (#[trigger] all[i]).id < bound by {
            if i < rest.len() {
                assert(all[i] == rest[i]);
            } else {
                assert(all[i].id == last.id);
            }
        }
    }
}

} // verus!
