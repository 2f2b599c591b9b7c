//! One cycle of discovery and reconnection: the list of ports the operating
//! system offers is held against the registered and the watched ports.
//!
//! This is the only place where "is the port still there" and "should it be
//! opened again" are decided.

use vstd::prelude::*;
use vstd::string::StringExecFns;
use crate::serial::base::{
    channel_views,
    channels_wf,
    find_port,
    fresh_scpi_channel,
    lemma_channels_wf_push,
    lemma_channels_wf_remove,
    port_names,
    ChannelModel,
    SerialPortManager,
};
use crate::serial::events::{
    deliver_all,
    deliver_event,
    event_views,
    subscriber_views,
    EventModel,
    SerialPortEvent,
    Subscription,
};
use crate::serial::lists::{
    distinct,
    find_name,
    lemma_concat_contains,
    lemma_distinct_push,
    lemma_last_contains,
    lemma_position_of_bounds,
    lemma_push_contains,
    names_of,
    position_of,
};

verus! {

/// Time between two discovery cycles, in milliseconds.
pub const MONITOR_INTERVAL_MS: u64 = 500;

/// Baud rate of a channel that discovery registers again.
pub const REDISCOVERY_BAUD_RATE: u32 = 9600;

/// Why registering a port that is registered already fails, in words.
pub open spec fn already_registered_text(port: Seq<char>) -> Seq<char> {
    "串口 "@ + port + " 已存在"@
}

/// The closed transaction-only channel that discovery registers for a port.
pub open spec fn rediscovered_channel(port: Seq<char>, cancelled: bool) -> ChannelModel {
    fresh_scpi_channel(port, REDISCOVERY_BAUD_RATE, cancelled)
}

/// The registered channels whose port is still available, in their order.
pub open spec fn surviving(ports: Seq<ChannelModel>, available: Seq<Seq<char>>) -> Seq<
    ChannelModel,
>
    decreases ports.len(),
{
    if ports.len() == 0 {
        Seq::<ChannelModel>::empty()
    } else {
        let rest = surviving(ports.drop_last(), available);
        if available.contains(ports.last().port_path) {
            rest.push(ports.last())
        } else {
            rest
        }
    }
}

/// One `PortRemovedFromSystem` for each registered channel whose port is no
/// longer available, in registry order.
pub open spec fn removal_events(ports: Seq<ChannelModel>, available: Seq<Seq<char>>) -> Seq<
    EventModel,
>
    decreases ports.len(),
{
    if ports.len() == 0 {
        Seq::<EventModel>::empty()
    } else {
        let rest = removal_events(ports.drop_last(), available);
        if available.contains(ports.last().port_path) {
            rest
        } else {
            rest.push(EventModel::RemovedFromSystem { port: ports.last().port_path })
        }
    }
}

/// What registering the returned ports comes to.
pub struct Reconnection {
    pub ports: Seq<ChannelModel>,
    pub events: Seq<EventModel>,
    /// At least one port was registered again.
    pub reopen: bool,
}

/// Goes through the available ports in order. One that is watched and was
/// not registered when the cycle began is registered as a transaction-only
/// channel, with `PortReconnected`; where that fails because an earlier entry
/// of the list has registered it already, `PortConnectionFailed` tells why.
pub open spec fn reconnect(
    ports: Seq<ChannelModel>,
    available: Seq<Seq<char>>,
    watched: Seq<Seq<char>>,
    registered: Seq<Seq<char>>,
    cancelled: bool,
) -> Reconnection
    decreases available.len(),
{
    if available.len() == 0 {
        Reconnection { ports, events: Seq::<EventModel>::empty(), reopen: false }
    } else {
        let before = reconnect(ports, available.drop_last(), watched, registered, cancelled);
        let port = available.last();
        if watched.contains(port) && !registered.contains(port) {
            if port_names(before.ports).contains(port) {
                Reconnection {
                    events: before.events.push(
                        EventModel::ConnectionFailed { port, error: already_registered_text(port) },
                    ),
                    ..before
                }
            } else {
                Reconnection {
                    ports: before.ports.push(rediscovered_channel(port, cancelled)),
                    events: before.events.push(EventModel::Reconnected { port }),
                    reopen: true,
                }
            }
        } else {
            before
        }
    }
}

/// What adopting the available ports comes to.
pub struct Adoption {
    pub watched: Seq<Seq<char>>,
    pub events: Seq<EventModel>,
}

/// Goes through the available ports in order. One that is not watched yet
/// joins the watched set, with `PortAddedToMonitoring`.
pub open spec fn adopt(watched: Seq<Seq<char>>, available: Seq<Seq<char>>) -> Adoption
    decreases available.len(),
{
    if available.len() == 0 {
        Adoption { watched, events: Seq::<EventModel>::empty() }
    } else {
        let before = adopt(watched, available.drop_last());
        let port = available.last();
        if before.watched.contains(port) {
            before
        } else {
            Adoption {
                watched: before.watched.push(port),
                events: before.events.push(EventModel::AddedToMonitoring { port }),
            }
        }
    }
}

/// One `PortStatusUpdate` for each entry of the available list that is
/// registered, with the channel's connectivity flag.
pub open spec fn status_events(ports: Seq<ChannelModel>, available: Seq<Seq<char>>) -> Seq<
    EventModel,
>
    decreases available.len(),
{
    if available.len() == 0 {
        Seq::<EventModel>::empty()
    } else {
        let rest = status_events(ports, available.drop_last());
        let port = available.last();
        let at = position_of(port_names(ports), port);
        if at < ports.len() {
            rest.push(
                EventModel::StatusUpdate {
                    port,
                    is_connected: ports[at].connected,
                    is_available: true,
                },
            )
        } else {
            rest
        }
    }
}

/// What one cycle comes to, before any port is opened again.
pub struct CycleModel {
    pub ports: Seq<ChannelModel>,
    pub watched: Seq<Seq<char>>,
    pub events: Seq<EventModel>,
    pub reopen: bool,
}

/// One discovery cycle over the list of available ports: registered ports
/// that are gone are removed; watched ports that are back are registered;
/// ports that merely exist are adopted into the watched set; every available
/// registered port reports its status.
pub open spec fn discovery_cycle(
    ports: Seq<ChannelModel>,
    watched: Seq<Seq<char>>,
    cancelled: bool,
    available: Seq<Seq<char>>,
) -> CycleModel {
    let back = reconnect(
        surviving(ports, available),
        available,
        watched,
        port_names(ports),
        cancelled,
    );
    let adopted = adopt(watched, available);
    CycleModel {
        ports: back.ports,
        watched: adopted.watched,
        events: removal_events(ports, available) + back.events + adopted.events + status_events(
            back.ports,
            available,
        ),
        reopen: back.reopen,
    }
}

/// A port is registered after the removals exactly when it was registered
/// before and is still available.
pub proof fn lemma_surviving_names(
    ports: Seq<ChannelModel>,
    available: Seq<Seq<char>>,
    name: Seq<char>,
)
    ensures
        port_names(surviving(ports, available)).contains(name) <==> port_names(ports).contains(
            name,
        ) && available.contains(name),
    decreases ports.len(),
{
    if ports.len() == 0 {
        assert(port_names(ports) =~= Seq::<Seq<char>>::empty());
        assert(port_names(surviving(ports, available)) =~= Seq::<Seq<char>>::empty());
    } else {
        let front = ports.drop_last();
        let last = ports.last();
        lemma_surviving_names(front, available, name);
        assert(port_names(ports) =~= port_names(front).push(last.port_path));
        lemma_push_contains(port_names(front), last.port_path, name);
        if available.contains(last.port_path) {
            assert(port_names(surviving(ports, available)) =~= port_names(
                surviving(front, available),
            ).push(last.port_path));
            lemma_push_contains(port_names(surviving(front, available)), last.port_path, name);
        }
    }
}

/// Every registered port that is no longer available has its removal told.
pub proof fn lemma_removal_is_told(
    ports: Seq<ChannelModel>,
    available: Seq<Seq<char>>,
    name: Seq<char>,
)
    requires
        port_names(ports).contains(name),
        !available.contains(name),
    ensures
        removal_events(ports, available).contains(EventModel::RemovedFromSystem { port: name }),
    decreases ports.len(),
{
    let told = EventModel::RemovedFromSystem { port: name };
    if ports.len() == 0 {
        assert(port_names(ports) =~= Seq::<Seq<char>>::empty());
    } else {
        let front = ports.drop_last();
        let last = ports.last();
        assert(port_names(ports) =~= port_names(front).push(last.port_path));
        lemma_push_contains(port_names(front), last.port_path, name);
        if port_names(front).contains(name) {
            lemma_removal_is_told(front, available, name);
        }
        if !available.contains(last.port_path) {
            lemma_push_contains(
                removal_events(front, available),
                EventModel::RemovedFromSystem { port: last.port_path },
                told,
            );
        }
    }
}

/// A port is registered after the reconnections exactly when it was
/// registered before them, or is an available watched port that was not
/// registered when the cycle began.
pub proof fn lemma_reconnect_names(
    ports: Seq<ChannelModel>,
    available: Seq<Seq<char>>,
    watched: Seq<Seq<char>>,
    registered: Seq<Seq<char>>,
    cancelled: bool,
    name: Seq<char>,
)
    ensures
        port_names(reconnect(ports, available, watched, registered, cancelled).ports).contains(
            name,
        ) <==> port_names(ports).contains(name) || (available.contains(name) && watched.contains(
            name,
        ) && !registered.contains(name)),
    decreases available.len(),
{
    if available.len() > 0 {
        let front = available.drop_last();
        let port = available.last();
        let before = reconnect(ports, front, watched, registered, cancelled);
        lemma_reconnect_names(ports, front, watched, registered, cancelled, name);
        lemma_last_contains(available, name);
        if watched.contains(port) && !registered.contains(port) && !port_names(
            before.ports,
        ).contains(port) {
            assert(port_names(before.ports.push(rediscovered_channel(port, cancelled)))
                =~= port_names(before.ports).push(port));
            lemma_push_contains(port_names(before.ports), port, name);
        }
    }
}

/// An available watched port that was registered neither when the cycle
/// began nor before the reconnections is told as reconnected, and the ports
/// are to be opened again.
pub proof fn lemma_reconnection_is_told(
    ports: Seq<ChannelModel>,
    available: Seq<Seq<char>>,
    watched: Seq<Seq<char>>,
    registered: Seq<Seq<char>>,
    cancelled: bool,
    name: Seq<char>,
)
    requires
        available.contains(name),
        watched.contains(name),
        !registered.contains(name),
        !port_names(ports).contains(name),
    ensures
        reconnect(ports, available, watched, registered, cancelled).events.contains(
            EventModel::Reconnected { port: name },
        ),
        reconnect(ports, available, watched, registered, cancelled).reopen,
    decreases available.len(),
{
    let told = EventModel::Reconnected { port: name };
    lemma_reconnect_unchanged_or_reopen(ports, available, watched, registered, cancelled);
    lemma_reconnect_names(ports, available, watched, registered, cancelled, name);
    if available.len() > 0 {
        let front = available.drop_last();
        let port = available.last();
        let before = reconnect(ports, front, watched, registered, cancelled);
        lemma_last_contains(available, name);
        lemma_reconnect_names(ports, front, watched, registered, cancelled, name);
        if front.contains(name) {
            lemma_reconnection_is_told(ports, front, watched, registered, cancelled, name);
        }
        if watched.contains(port) && !registered.contains(port) {
            if port_names(before.ports).contains(port) {
                lemma_push_contains(
                    before.events,
                    EventModel::ConnectionFailed { port, error: already_registered_text(port) },
                    told,
                );
            } else {
                lemma_push_contains(before.events, EventModel::Reconnected { port }, told);
            }
        }
    }
}

/// Where the ports are not to be opened again, no port was registered.
proof fn lemma_reconnect_unchanged_or_reopen(
    ports: Seq<ChannelModel>,
    available: Seq<Seq<char>>,
    watched: Seq<Seq<char>>,
    registered: Seq<Seq<char>>,
    cancelled: bool,
)
    ensures
        reconnect(ports, available, watched, registered, cancelled).reopen || reconnect(
            ports,
            available,
            watched,
            registered,
            cancelled,
        ).ports == ports,
    decreases available.len(),
{
    if available.len() > 0 {
        lemma_reconnect_unchanged_or_reopen(
            ports,
            available.drop_last(),
            watched,
            registered,
            cancelled,
        );
    }
}

/// Within one cycle a registered port that the system no longer lists is
/// taken out of the registry, and its removal is among the cycle's events.
pub proof fn lemma_missing_port_is_removed(
    ports: Seq<ChannelModel>,
    watched: Seq<Seq<char>>,
    cancelled: bool,
    available: Seq<Seq<char>>,
    name: Seq<char>,
)
    requires
        port_names(ports).contains(name),
        !available.contains(name),
    ensures
        !port_names(discovery_cycle(ports, watched, cancelled, available).ports).contains(name),
        discovery_cycle(ports, watched, cancelled, available).events.contains(
            EventModel::RemovedFromSystem { port: name },
        ),
{
    let told = EventModel::RemovedFromSystem { port: name };
    let kept = surviving(ports, available);
    let back = reconnect(kept, available, watched, port_names(ports), cancelled);
    let adopted = adopt(watched, available);
    let removed = removal_events(ports, available);
    lemma_surviving_names(ports, available, name);
    lemma_reconnect_names(kept, available, watched, port_names(ports), cancelled, name);
    lemma_removal_is_told(ports, available, name);
    lemma_concat_contains(removed, back.events, told);
    lemma_concat_contains(removed + back.events, adopted.events, told);
    lemma_concat_contains(
        removed + back.events + adopted.events,
        status_events(back.ports, available),
        told,
    );
}

/// Within one cycle a watched port that is not registered and that the
/// system lists is registered, its reconnection is among the cycle's events,
/// and the ports are to be opened again.
pub proof fn lemma_returned_port_is_registered(
    ports: Seq<ChannelModel>,
    watched: Seq<Seq<char>>,
    cancelled: bool,
    available: Seq<Seq<char>>,
    name: Seq<char>,
)
    requires
        watched.contains(name),
        !port_names(ports).contains(name),
        available.contains(name),
    ensures
        port_names(discovery_cycle(ports, watched, cancelled, available).ports).contains(name),
        discovery_cycle(ports, watched, cancelled, available).events.contains(
            EventModel::Reconnected { port: name },
        ),
        discovery_cycle(ports, watched, cancelled, available).reopen,
{
    let told = EventModel::Reconnected { port: name };
    let kept = surviving(ports, available);
    let back = reconnect(kept, available, watched, port_names(ports), cancelled);
    let adopted = adopt(watched, available);
    let removed = removal_events(ports, available);
    lemma_surviving_names(ports, available, name);
    lemma_reconnect_names(kept, available, watched, port_names(ports), cancelled, name);
    lemma_reconnection_is_told(kept, available, watched, port_names(ports), cancelled, name);
    lemma_concat_contains(removed, back.events, told);
    lemma_concat_contains(removed + back.events, adopted.events, told);
    lemma_concat_contains(
        removed + back.events + adopted.events,
        status_events(back.ports, available),
        told,
    );
}

/// After a cycle every registered port is one that the system lists.
pub proof fn lemma_registered_ports_are_available(
    ports: Seq<ChannelModel>,
    watched: Seq<Seq<char>>,
    cancelled: bool,
    available: Seq<Seq<char>>,
    name: Seq<char>,
)
    requires
        port_names(discovery_cycle(ports, watched, cancelled, available).ports).contains(name),
    ensures
        available.contains(name),
{
    let kept = surviving(ports, available);
    lemma_surviving_names(ports, available, name);
    lemma_reconnect_names(kept, available, watched, port_names(ports), cancelled, name);
}

/// The port identifiers of the channels, in their order.
pub fn port_list(ports: &Vec<SerialPortManager>) -> (names: Vec<String>)
    ensures
        names_of(names@) == port_names(channel_views(ports@)),
{
    let mut names: Vec<String> = Vec::new();
    let mut i: usize = 0;
    while i < ports.len()
        invariant
            i <= ports@.len(),
            names_of(names@) == port_names(channel_views(ports@)).take(i as int),
        decreases ports@.len() - i,
    {
        let ghost listed = names_of(names@);
        names.push(ports[i].get_port().to_owned());
        assert(names_of(names@) =~= listed.push(ports@[i as int]@.port_path));
        assert(names_of(names@) =~= port_names(channel_views(ports@)).take(i + 1));
        i += 1;
    }
    assert(port_names(channel_views(ports@)).take(i as int) =~= port_names(
        channel_views(ports@),
    ));
    names
}

/// Removes the channels whose port is no longer available, cancelling each,
/// and tells which.
pub fn remove_missing(
    ports: &mut Vec<SerialPortManager>,
    available: &Vec<String>,
    cancelled: bool,
) -> (events: Vec<SerialPortEvent>)
    requires
        channels_wf(channel_views(old(ports)@), cancelled),
    ensures
        channel_views(final(ports)@) == surviving(
            channel_views(old(ports)@),
            names_of(available@),
        ),
        event_views(events@) == removal_events(channel_views(old(ports)@), names_of(available@)),
        channels_wf(channel_views(final(ports)@), cancelled),
{
    let ghost before = channel_views(ports@);
    let ghost found = names_of(available@);
    let ghost mut seen: int = 0;
    let mut events: Vec<SerialPortEvent> = Vec::new();
    let mut i: usize = 0;
    assert(before.take(0) =~= Seq::<ChannelModel>::empty());
    assert(channel_views(ports@) =~= surviving(before.take(0), found) + before.skip(0));
    assert(event_views(events@) =~= removal_events(before.take(0), found));
    while i < ports.len()
        invariant
            0 <= seen <= before.len(),
            found == names_of(available@),
            i == surviving(before.take(seen), found).len(),
            channel_views(ports@) == surviving(before.take(seen), found) + before.skip(seen),
            event_views(events@) == removal_events(before.take(seen), found),
            channels_wf(channel_views(ports@), cancelled),
        decreases before.len() - seen,
    {
        let ghost current = channel_views(ports@);
        let ghost told = event_views(events@);
        assert(current.len() == ports@.len());
        assert(current[i as int] == ports@[i as int]@);
        assert(current[i as int] == before[seen]);
        assert(before.take(seen + 1).drop_last() =~= before.take(seen));
        let name = ports[i].get_port().to_owned();
        proof {
            lemma_position_of_bounds(found, name@);
        }
        if find_name(available, &name) < available.len() {
            assert(channel_views(ports@) =~= surviving(before.take(seen + 1), found)
                + before.skip(seen + 1));
            i += 1;
        } else {
            events.push(SerialPortEvent::PortRemovedFromSystem { port: name });
            assert(event_views(events@) =~= told.push(
                EventModel::RemovedFromSystem { port: before[seen].port_path },
            ));
            let mut channel = ports.remove(i);
            channel.cancel_tasks();
            proof {
                assert(channel_views(ports@) =~= current.remove(i as int));
                lemma_channels_wf_remove(current, i as int, cancelled);
                assert(channel_views(ports@) =~= surviving(before.take(seen + 1), found)
                    + before.skip(seen + 1));
            }
        }
        proof {
            seen = seen + 1;
        }
    }
    assert(before.take(seen) =~= before);
    assert(before.skip(seen) =~= Seq::<ChannelModel>::empty());
    events
}

/// The text of the refusal to register a port twice.
pub fn already_registered_message(port: &String) -> (text: String)
    ensures
        text@ == already_registered_text(port@),
{
    "串口 ".to_owned().concat(port.as_str()).concat(" 已存在")
}

/// Registers the available ports that are watched and were not registered
/// when the cycle began, and tells how each went.
pub fn reconnect_watched(
    ports: &mut Vec<SerialPortManager>,
    available: &Vec<String>,
    watched: &Vec<String>,
    registered: &Vec<String>,
    cancelled: bool,
) -> (outcome: (Vec<SerialPortEvent>, bool))
    requires
        channels_wf(channel_views(old(ports)@), cancelled),
    ensures
        ({
            let back = reconnect(
                channel_views(old(ports)@),
                names_of(available@),
                names_of(watched@),
                names_of(registered@),
                cancelled,
            );
            &&& channel_views(final(ports)@) == back.ports
            &&& event_views(outcome.0@) == back.events
            &&& outcome.1 == back.reopen
        }),
        channels_wf(channel_views(final(ports)@), cancelled),
{
    let ghost before = channel_views(ports@);
    let ghost found = names_of(available@);
    let ghost watching = names_of(watched@);
    let ghost listed = names_of(registered@);
    let mut events: Vec<SerialPortEvent> = Vec::new();
    let mut reopen = false;
    let mut i: usize = 0;
    assert(found.take(0) =~= Seq::<Seq<char>>::empty());
    assert(event_views(events@) =~= Seq::<EventModel>::empty());
    while i < available.len()
        invariant
            i <= available@.len(),
            found == names_of(available@),
            watching == names_of(watched@),
            listed == names_of(registered@),
            channel_views(ports@) == reconnect(
                before,
                found.take(i as int),
                watching,
                listed,
                cancelled,
            ).ports,
            event_views(events@) == reconnect(
                before,
                found.take(i as int),
                watching,
                listed,
                cancelled,
            ).events,
            reopen == reconnect(before, found.take(i as int), watching, listed, cancelled).reopen,
            channels_wf(channel_views(ports@), cancelled),
        decreases available@.len() - i,
    {
        let ghost current = channel_views(ports@);
        let ghost told = event_views(events@);
        let name = &available[i];
        assert(found.take(i + 1).drop_last() =~= found.take(i as int));
        assert(found.take(i + 1).last() == name@);
        proof {
            lemma_position_of_bounds(watching, name@);
            lemma_position_of_bounds(listed, name@);
            lemma_position_of_bounds(port_names(current), name@);
        }
        if find_name(watched, name) < watched.len() && find_name(registered, name)
            == registered.len() {
            if find_port(ports, name) < ports.len() {
                events.push(
                    SerialPortEvent::PortConnectionFailed {
                        port: name.clone(),
                        error: already_registered_message(name),
                    },
                );
                assert(event_views(events@) =~= told.push(
                    EventModel::ConnectionFailed {
                        port: name@,
                        error: already_registered_text(name@),
                    },
                ));
            } else {
                let channel = SerialPortManager::new_for_scpi(
                    name.as_str(),
                    REDISCOVERY_BAUD_RATE,
                    cancelled,
                );
                proof {
                    lemma_channels_wf_push(current, channel@, cancelled);
                }
                ports.push(channel);
                events.push(SerialPortEvent::PortReconnected { port: name.clone() });
                reopen = true;
                assert(channel_views(ports@) =~= current.push(
                    rediscovered_channel(name@, cancelled),
                ));
                assert(event_views(events@) =~= told.push(EventModel::Reconnected { port: name@ }));
            }
        }
        i += 1;
    }
    assert(found.take(i as int) =~= found);
    (events, reopen)
}

/// Adds the available ports that are not watched yet to the watched set,
/// and tells which.
pub fn adopt_available(watched: &mut Vec<String>, available: &Vec<String>) -> (events: Vec<
    SerialPortEvent,
>)
    requires
        distinct(names_of(old(watched)@)),
    ensures
        ({
            let adopted = adopt(names_of(old(watched)@), names_of(available@));
            &&& names_of(final(watched)@) == adopted.watched
            &&& event_views(events@) == adopted.events
        }),
        distinct(names_of(final(watched)@)),
{
    let ghost before = names_of(watched@);
    let ghost found = names_of(available@);
    let mut events: Vec<SerialPortEvent> = Vec::new();
    let mut i: usize = 0;
    assert(found.take(0) =~= Seq::<Seq<char>>::empty());
    assert(event_views(events@) =~= Seq::<EventModel>::empty());
    while i < available.len()
        invariant
            i <= available@.len(),
            found == names_of(available@),
            names_of(watched@) == adopt(before, found.take(i as int)).watched,
            event_views(events@) == adopt(before, found.take(i as int)).events,
            distinct(names_of(watched@)),
        decreases available@.len() - i,
    {
        let ghost current = names_of(watched@);
        let ghost told = event_views(events@);
        let name = &available[i];
        assert(found.take(i + 1).drop_last() =~= found.take(i as int));
        assert(found.take(i + 1).last() == name@);
        proof {
            lemma_position_of_bounds(current, name@);
        }
        if find_name(watched, name) == watched.len() {
            proof {
                lemma_distinct_push(current, name@);
            }
            watched.push(name.clone());
            events.push(SerialPortEvent::PortAddedToMonitoring { port: name.clone() });
            assert(names_of(watched@) =~= current.push(name@));
            assert(event_views(events@) =~= told.push(
                EventModel::AddedToMonitoring { port: name@ },
            ));
        }
        i += 1;
    }
    assert(found.take(i as int) =~= found);
    events
}

/// The status of every available port that is registered.
pub fn report_status(ports: &Vec<SerialPortManager>, available: &Vec<String>) -> (events: Vec<
    SerialPortEvent,
>)
    ensures
        event_views(events@) == status_events(channel_views(ports@), names_of(available@)),
{
    let ghost views = channel_views(ports@);
    let ghost found = names_of(available@);
    let mut events: Vec<SerialPortEvent> = Vec::new();
    let mut i: usize = 0;
    assert(found.take(0) =~= Seq::<Seq<char>>::empty());
    assert(event_views(events@) =~= Seq::<EventModel>::empty());
    while i < available.len()
        invariant
            i <= available@.len(),
            found == names_of(available@),
            views == channel_views(ports@),
            event_views(events@) == status_events(views, found.take(i as int)),
        decreases available@.len() - i,
    {
        let ghost told = event_views(events@);
        let name = &available[i];
        assert(found.take(i + 1).drop_last() =~= found.take(i as int));
        assert(found.take(i + 1).last() == name@);
        let at = find_port(ports, name);
        if at < ports.len() {
            assert(views[at as int] == ports@[at as int]@);
            events.push(
                SerialPortEvent::PortStatusUpdate {
                    port: name.clone(),
                    is_connected: ports[at].is_open(),
                    is_available: true,
                },
            );
            assert(event_views(events@) =~= told.push(
                EventModel::StatusUpdate {
                    port: name@,
                    is_connected: views[at as int].connected,
                    is_available: true,
                },
            ));
        }
        i += 1;
    }
    assert(found.take(i as int) =~= found);
    events
}

/// Emits the events in order.
pub fn deliver_events(subscribers: &mut Vec<Subscription>, events: &Vec<SerialPortEvent>)
    ensures
        subscriber_views(final(subscribers)@) == deliver_all(
            subscriber_views(old(subscribers)@),
            event_views(events@),
        ),
{
    let ghost before = subscriber_views(subscribers@);
    let ghost told = event_views(events@);
    let mut i: usize = 0;
    assert(told.take(0) =~= Seq::<EventModel>::empty());
    while i < events.len()
        invariant
            i <= events@.len(),
            told == event_views(events@),
            subscriber_views(subscribers@) == deliver_all(before, told.take(i as int)),
        decreases events@.len() - i,
    {
        assert(told.take(i + 1).drop_last() =~= told.take(i as int));
        assert(told.take(i + 1).last() == events@[i as int]@);
        deliver_event(subscribers, &events[i]);
        i += 1;
    }
    assert(told.take(i as int) =~= told);
}

} // verus!
