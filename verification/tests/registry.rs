use serial_modbus::serial::base::{
    ChannelError, ReadOutcome, ReceiveAction, ReceiveEvent, ReceivedData,
};
use serial_modbus::serial::events::SerialPortEvent;
use serial_modbus::serial::manager::{
    OpenRequest, RegistryError, SendRequest, SerialPortRegistry,
};

fn names(list: &[&str]) -> Vec<String> {
    list.iter().map(|name| name.to_string()).collect()
}

fn removed(port: &str) -> SerialPortEvent {
    SerialPortEvent::PortRemovedFromSystem { port: port.to_string() }
}

fn reconnected(port: &str) -> SerialPortEvent {
    SerialPortEvent::PortReconnected { port: port.to_string() }
}

fn added(port: &str) -> SerialPortEvent {
    SerialPortEvent::PortAddedToMonitoring { port: port.to_string() }
}

fn status(port: &str, is_connected: bool) -> SerialPortEvent {
    SerialPortEvent::PortStatusUpdate { port: port.to_string(), is_connected, is_available: true }
}

fn request(port: &str, baud_rate: u32) -> OpenRequest {
    OpenRequest { port_path: port.to_string(), baud_rate }
}

#[test]
fn new_registry_is_empty() {
    let registry = SerialPortRegistry::new();
    assert!(registry.port_paths().is_empty());
    assert!(registry.task_ports().is_empty());
    assert!(!registry.is_cancelled());
    assert!(registry.get_port("COM1").is_none());
}

#[test]
fn add_port_registers_a_closed_channel() {
    let mut registry = SerialPortRegistry::new();
    assert_eq!(registry.add_port("COM1", 256000, 200, 8), Ok(()));
    let channel = registry.get_port("COM1").unwrap();
    assert_eq!(channel.get_port(), "COM1");
    assert_eq!(channel.baud_rate(), 256000);
    assert!(channel.auto_receive());
    assert!(!channel.is_open());
    assert!(!registry.is_connected("COM1"));
}

#[test]
fn add_port_twice_is_already_registered() {
    let mut registry = SerialPortRegistry::new();
    assert_eq!(registry.add_port("COM1", 9600, 200, 8), Ok(()));
    assert_eq!(
        registry.add_port("COM1", 115200, 100, 4),
        Err(RegistryError::AlreadyRegistered { port: "COM1".to_string() })
    );
    assert_eq!(
        registry.add_scpi_port("COM1", 9600),
        Err(RegistryError::AlreadyRegistered { port: "COM1".to_string() })
    );
    assert_eq!(
        registry.add_port_with_defaults("COM1"),
        Err(RegistryError::AlreadyRegistered { port: "COM1".to_string() })
    );
    assert_eq!(registry.port_paths(), names(&["COM1"]));
    assert_eq!(registry.get_port("COM1").unwrap().baud_rate(), 9600);
}

#[test]
fn add_port_with_defaults_uses_the_default_baud_rate() {
    let mut registry = SerialPortRegistry::new();
    assert_eq!(registry.add_port_with_defaults("COM4"), Ok(()));
    assert_eq!(registry.get_port("COM4").unwrap().baud_rate(), 115200);
    assert!(registry.get_port("COM4").unwrap().auto_receive());
    assert_eq!(registry.open_all(), vec![request("COM4", 115200)]);
    assert_eq!(registry.finish_open("COM4", Ok(())), Ok(()));
    assert_eq!(
        registry.receive_step("COM4", ReceiveEvent::Wake),
        Some(ReceiveAction::Read { timeout_ms: 200 })
    );
}

#[test]
fn add_scpi_port_disables_background_ingestion() {
    let mut registry = SerialPortRegistry::new();
    assert_eq!(registry.add_scpi_port("COM5", 19200), Ok(()));
    let channel = registry.get_port("COM5").unwrap();
    assert!(!channel.auto_receive());
    assert_eq!(channel.baud_rate(), 19200);
}

#[test]
fn remove_port_cancels_and_hands_back_the_channel() {
    let mut registry = SerialPortRegistry::new();
    registry.add_port("COM1", 9600, 200, 8).unwrap();
    registry.add_port("COM2", 9600, 200, 8).unwrap();
    registry.open_all();
    registry.finish_open("COM1", Ok(())).unwrap();
    let channel = registry.remove_port("COM1").unwrap();
    assert_eq!(channel.get_port(), "COM1");
    assert!(channel.is_cancelled());
    assert!(!channel.is_open());
    assert!(registry.get_port("COM1").is_none());
    assert!(registry.remove_port("COM1").is_none());
    assert_eq!(registry.port_paths(), names(&["COM2"]));
    assert!(!registry.get_port("COM2").unwrap().is_cancelled());
}

#[test]
fn open_all_asks_only_for_closed_channels() {
    let mut registry = SerialPortRegistry::new();
    registry.add_port("COM1", 9600, 200, 8).unwrap();
    registry.add_port("COM2", 19200, 200, 8).unwrap();
    assert_eq!(registry.open_all(), vec![request("COM1", 9600), request("COM2", 19200)]);
    assert_eq!(registry.finish_open("COM1", Ok(())), Ok(()));
    assert_eq!(
        registry.finish_open("COM2", Err("busy".to_string())),
        Err(RegistryError::Channel(ChannelError::Io("busy".to_string())))
    );
    assert!(registry.is_connected("COM1"));
    assert!(!registry.is_connected("COM2"));
    assert_eq!(registry.open_all(), vec![request("COM2", 19200)]);
    assert_eq!(
        registry.finish_open("COM9", Ok(())),
        Err(RegistryError::NotFound { port: "COM9".to_string() })
    );
}

#[test]
fn open_all_reconnects_a_channel_that_still_holds_its_handle() {
    let mut registry = SerialPortRegistry::new();
    registry.add_port("COM1", 9600, 200, 8).unwrap();
    registry.open_all();
    registry.finish_open("COM1", Ok(())).unwrap();
    assert_eq!(
        registry.receive_step("COM1", ReceiveEvent::Forwarded(false)),
        Some(ReceiveAction::Stop)
    );
    assert!(!registry.is_connected("COM1"));
    assert_eq!(registry.open_all(), Vec::<OpenRequest>::new());
    assert!(registry.is_connected("COM1"));
}

#[test]
fn close_all_cancels_every_channel() {
    let mut registry = SerialPortRegistry::new();
    registry.add_port("COM1", 9600, 200, 8).unwrap();
    registry.add_scpi_port("COM2", 9600).unwrap();
    registry.open_all();
    registry.finish_open("COM1", Ok(())).unwrap();
    registry.finish_open("COM2", Ok(())).unwrap();
    assert_eq!(registry.close_all(), 1000);
    assert!(registry.is_cancelled());
    for port in ["COM1", "COM2"] {
        let channel = registry.get_port(port).unwrap();
        assert!(channel.is_cancelled());
        assert!(channel.is_open());
    }
    registry.finish_close_all();
    for port in ["COM1", "COM2"] {
        let channel = registry.get_port(port).unwrap();
        assert!(channel.is_cancelled());
        assert!(!channel.is_open());
        assert_eq!(registry.receive_step(port, ReceiveEvent::Wake), Some(ReceiveAction::Stop));
        assert_eq!(
            registry.receive_step(port, ReceiveEvent::Read(ReadOutcome::Data(vec![1]))),
            Some(ReceiveAction::Stop)
        );
        assert_eq!(
            registry.process_step(port, Some(ReceivedData { data: vec![1] })),
            Some(false)
        );
    }
    registry.add_port("COM3", 9600, 200, 8).unwrap();
    assert!(registry.get_port("COM3").unwrap().is_cancelled());
}

#[test]
fn root_cancel_stops_tasks_before_the_handles_are_released() {
    let mut registry = SerialPortRegistry::new();
    registry.add_port("COM1", 9600, 200, 8).unwrap();
    registry.open_all();
    registry.finish_open("COM1", Ok(())).unwrap();
    registry.close_all();
    assert_eq!(registry.receive_step("COM1", ReceiveEvent::Wake), Some(ReceiveAction::Stop));
    assert_eq!(
        registry.receive_step("COM1", ReceiveEvent::Read(ReadOutcome::TimedOut)),
        Some(ReceiveAction::Stop)
    );
    assert_eq!(registry.process_step("COM1", None), Some(false));
    assert!(registry.is_connected("COM1"));
}

#[test]
fn send_data_needs_a_registered_open_port() {
    let mut registry = SerialPortRegistry::new();
    assert_eq!(
        registry.send_data("COM1", &[1, 2]),
        Err(RegistryError::NotFound { port: "COM1".to_string() })
    );
    registry.add_port("COM1", 9600, 200, 8).unwrap();
    assert_eq!(
        registry.send_data("COM1", &[1, 2]),
        Err(RegistryError::Channel(ChannelError::NotOpen))
    );
    registry.open_all();
    registry.finish_open("COM1", Ok(())).unwrap();
    assert_eq!(registry.send_data("COM1", &[1, 2]), Ok(vec![1, 2]));
}

#[test]
fn send_data_to_all_reaches_the_open_ports() {
    let mut registry = SerialPortRegistry::new();
    registry.add_port("COM1", 9600, 200, 8).unwrap();
    registry.add_port("COM2", 9600, 200, 8).unwrap();
    registry.add_port("COM3", 9600, 200, 8).unwrap();
    registry.open_all();
    registry.finish_open("COM1", Ok(())).unwrap();
    registry.finish_open("COM3", Ok(())).unwrap();
    assert_eq!(
        registry.send_data_to_all(&[7, 7]),
        vec![
            SendRequest { port_path: "COM1".to_string(), data: vec![7, 7] },
            SendRequest { port_path: "COM3".to_string(), data: vec![7, 7] },
        ]
    );
}

#[test]
fn add_task_port_is_idempotent_and_emits_once() {
    let mut registry = SerialPortRegistry::new();
    let id = registry.subscribe_events().unwrap();
    registry.add_task_port("COM1");
    registry.add_task_port("COM3");
    registry.add_task_port("COM1");
    assert_eq!(registry.task_ports(), &names(&["COM1", "COM3"]));
    assert_eq!(registry.take_events(id), vec![added("COM1"), added("COM3")]);
    assert!(registry.take_events(id).is_empty());
}

#[test]
fn late_subscriber_sees_nothing_of_the_past() {
    let mut registry = SerialPortRegistry::new();
    let early = registry.subscribe_events().unwrap();
    registry.add_task_port("COM1");
    let late = registry.subscribe_events().unwrap();
    assert_ne!(early, late);
    registry.add_task_port("COM2");
    assert_eq!(registry.take_events(early), vec![added("COM1"), added("COM2")]);
    assert_eq!(registry.take_events(late), vec![added("COM2")]);
}

#[test]
fn dead_subscriber_is_dropped_and_others_still_served() {
    let mut registry = SerialPortRegistry::new();
    let first = registry.subscribe_events().unwrap();
    let second = registry.subscribe_events().unwrap();
    registry.add_task_port("COM1");
    registry.unsubscribe(first);
    assert_eq!(registry.take_events(first), vec![added("COM1")]);
    registry.add_task_port("COM2");
    assert!(registry.take_events(first).is_empty());
    assert_eq!(registry.take_events(second), vec![added("COM1"), added("COM2")]);
    registry.emit_event(reconnected("COM9"));
    assert_eq!(registry.take_events(second), vec![reconnected("COM9")]);
    assert!(registry.take_events(99).is_empty());
}

#[test]
fn vanished_port_is_removed_within_one_cycle() {
    let mut registry = SerialPortRegistry::new();
    let id = registry.subscribe_events().unwrap();
    registry.add_port("ttyS1", 9600, 200, 8).unwrap();
    assert_eq!(registry.open_all(), vec![request("ttyS1", 9600)]);
    registry.finish_open("ttyS1", Ok(())).unwrap();
    let present = registry.monitor_cycle(&names(&["ttyS1"]));
    assert_eq!(present.events, vec![added("ttyS1"), status("ttyS1", true)]);
    assert!(!present.reopened);
    assert!(registry.get_port("ttyS1").is_some());
    registry.take_events(id);

    let outcome = registry.monitor_cycle(&names(&[]));
    assert_eq!(outcome.events, vec![removed("ttyS1")]);
    assert!(!outcome.reopened);
    assert!(outcome.open_requests.is_empty());
    assert!(registry.get_port("ttyS1").is_none());
    assert_eq!(registry.receive_step("ttyS1", ReceiveEvent::Wake), None);
    assert_eq!(registry.take_events(id), vec![removed("ttyS1")]);
}

#[test]
fn watched_port_that_appears_is_registered_and_opened_once() {
    let mut registry = SerialPortRegistry::new();
    let id = registry.subscribe_events().unwrap();
    registry.add_task_port("ttyS2");
    registry.add_task_port("ttyS3");
    registry.take_events(id);

    let idle = registry.monitor_cycle(&names(&[]));
    assert!(idle.events.is_empty());
    assert!(!idle.reopened);
    assert!(registry.get_port("ttyS2").is_none());

    let outcome = registry.monitor_cycle(&names(&["ttyS2", "ttyS3"]));
    assert_eq!(
        outcome.events,
        vec![reconnected("ttyS2"), reconnected("ttyS3"), status("ttyS2", false), status("ttyS3", false)]
    );
    assert!(outcome.reopened);
    assert_eq!(outcome.open_requests, vec![request("ttyS2", 9600), request("ttyS3", 9600)]);
    let channel = registry.get_port("ttyS2").unwrap();
    assert!(!channel.auto_receive());
    assert_eq!(channel.baud_rate(), 9600);
    assert_eq!(registry.take_events(id), outcome.events);

    registry.finish_open("ttyS2", Ok(())).unwrap();
    let next = registry.monitor_cycle(&names(&["ttyS2", "ttyS3"]));
    assert_eq!(next.events, vec![status("ttyS2", true), status("ttyS3", false)]);
    assert!(!next.reopened);
    assert!(next.open_requests.is_empty());
}

#[test]
fn port_that_merely_exists_is_adopted_then_registered() {
    let mut registry = SerialPortRegistry::new();
    let first = registry.monitor_cycle(&names(&["ttyS9"]));
    assert_eq!(first.events, vec![added("ttyS9")]);
    assert!(!first.reopened);
    assert_eq!(registry.task_ports(), &names(&["ttyS9"]));
    assert!(registry.get_port("ttyS9").is_none());

    let second = registry.monitor_cycle(&names(&["ttyS9"]));
    assert_eq!(second.events, vec![reconnected("ttyS9"), status("ttyS9", false)]);
    assert!(second.reopened);
    assert_eq!(second.open_requests, vec![request("ttyS9", 9600)]);
}

#[test]
fn port_listed_twice_fails_its_second_registration() {
    let mut registry = SerialPortRegistry::new();
    registry.add_task_port("ttyS2");
    let outcome = registry.monitor_cycle(&names(&["ttyS2", "ttyS2"]));
    assert_eq!(
        outcome.events,
        vec![
            reconnected("ttyS2"),
            SerialPortEvent::PortConnectionFailed {
                port: "ttyS2".to_string(),
                error: "串口 ttyS2 已存在".to_string(),
            },
            status("ttyS2", false),
            status("ttyS2", false),
        ]
    );
    assert_eq!(outcome.open_requests, vec![request("ttyS2", 9600)]);
    assert_eq!(registry.port_paths(), names(&["ttyS2"]));
}

#[test]
fn cycle_orders_removals_reconnections_adoptions_and_status() {
    let mut registry = SerialPortRegistry::new();
    registry.add_port("A", 9600, 200, 8).unwrap();
    registry.add_port("B", 9600, 200, 8).unwrap();
    registry.add_task_port("C");
    registry.open_all();
    registry.finish_open("B", Ok(())).unwrap();
    let outcome = registry.monitor_cycle(&names(&["D", "C", "B"]));
    assert_eq!(
        outcome.events,
        vec![
            removed("A"),
            reconnected("C"),
            added("D"),
            added("B"),
            status("C", false),
            status("B", true),
        ]
    );
    assert!(outcome.reopened);
    assert_eq!(outcome.open_requests, vec![request("C", 9600)]);
    assert_eq!(registry.port_paths(), names(&["B", "C"]));
    assert_eq!(registry.task_ports(), &names(&["C", "D", "B"]));
}

#[test]
fn removed_port_stays_watched_and_comes_back() {
    let mut registry = SerialPortRegistry::new();
    registry.add_port("ttyS1", 256000, 200, 8).unwrap();
    registry.monitor_cycle(&names(&["ttyS1"]));
    registry.monitor_cycle(&names(&[]));
    assert!(registry.get_port("ttyS1").is_none());
    let outcome = registry.monitor_cycle(&names(&["ttyS1"]));
    assert_eq!(outcome.events, vec![reconnected("ttyS1"), status("ttyS1", false)]);
    assert_eq!(registry.get_port("ttyS1").unwrap().baud_rate(), 9600);
}

#[test]
fn ingestion_through_the_registry_updates_the_channel() {
    let mut registry = SerialPortRegistry::new();
    registry.add_port("COM1", 9600, 150, 8).unwrap();
    assert_eq!(
        registry.receive_step("COM1", ReceiveEvent::Wake),
        Some(ReceiveAction::Wait { millis: 1000 })
    );
    registry.open_all();
    registry.finish_open("COM1", Ok(())).unwrap();
    assert_eq!(
        registry.receive_step("COM1", ReceiveEvent::Wake),
        Some(ReceiveAction::Read { timeout_ms: 150 })
    );
    assert_eq!(
        registry.receive_step("COM1", ReceiveEvent::Read(ReadOutcome::Data(vec![5, 6]))),
        Some(ReceiveAction::Forward(ReceivedData { data: vec![5, 6] }))
    );
    assert_eq!(
        registry.process_step("COM1", Some(ReceivedData { data: vec![5, 6] })),
        Some(true)
    );
    assert_eq!(registry.get_port("COM1").unwrap().accumulated(), &vec![5, 6]);
    assert_eq!(
        registry.receive_step("COM1", ReceiveEvent::Read(ReadOutcome::Failed("x".to_string()))),
        Some(ReceiveAction::Wait { millis: 1000 })
    );
    assert!(!registry.is_connected("COM1"));
    assert_eq!(registry.process_step("COM8", None), None);
}

#[test]
fn emission_appends_to_open_queues_and_drops_closed_ones() {
    let mut subscribers = vec![
        serial_modbus::serial::events::Subscription::new(1),
        serial_modbus::serial::events::Subscription::new(2),
        serial_modbus::serial::events::Subscription::new(3),
    ];
    serial_modbus::serial::events::deliver_event(&mut subscribers, &added("COM1"));
    serial_modbus::serial::events::close_subscription(&mut subscribers, 2);
    assert!(!subscribers[1].is_open());
    serial_modbus::serial::events::deliver_event(&mut subscribers, &removed("COM1"));
    assert_eq!(subscribers.len(), 2);
    assert_eq!(subscribers[0].id(), 1);
    assert_eq!(subscribers[1].id(), 3);
    assert_eq!(
        serial_modbus::serial::events::take_pending(&mut subscribers, 3),
        vec![added("COM1"), removed("COM1")]
    );
    assert!(serial_modbus::serial::events::take_pending(&mut subscribers, 3).is_empty());
    assert!(serial_modbus::serial::events::take_pending(&mut subscribers, 2).is_empty());
    assert_eq!(added("COM1").duplicate(), added("COM1"));
    assert_eq!(status("COM1", true).duplicate(), status("COM1", true));
}

#[test]
fn event_type_is_reachable_from_the_registry_module() {
    let event = serial_modbus::serial::manager::SerialPortEvent::PortConnectionFailed {
        port: "COM1".to_string(),
        error: "busy".to_string(),
    };
    assert_eq!(event.duplicate(), event);
}
