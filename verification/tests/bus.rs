use pet_core::ipc::{IpcEnvelope, IpcMessage, ProcessId};
use pet_core::registry::ClientRegistry;
use pet_core::router::{AppCommand, DropReason, MessageRouter, Routed};
use pet_core::script::{Action, BehaviorScript, Keyframe};
use pet_core::server::{Connection, ReadStep};

/// A bus in one process: the handle of a connection is the index of its
/// outbox.
struct Bus {
    registry: ClientRegistry<usize>,
    router: MessageRouter,
    outboxes: Vec<Vec<Vec<u8>>>,
    commands: Vec<AppCommand>,
}

impl Bus {
    fn new() -> Self {
        Bus {
            registry: ClientRegistry::new(),
            router: MessageRouter::new(),
            outboxes: Vec::new(),
            commands: Vec::new(),
        }
    }

    fn connect(&mut self) -> Connection<usize> {
        self.outboxes.push(Vec::new());
        let n = self.outboxes.len() - 1;
        Connection::new(n as u64, n)
    }

    /// What the transport does with one frame that a client wrote.
    fn receive(&mut self, conn: &mut Connection<usize>, frame: &[u8]) {
        let header = [frame[0], frame[1], frame[2], frame[3]];
        let n = match Connection::<usize>::on_header(&header) {
            ReadStep::Payload(n) => n,
            ReadStep::Close => {
                conn.on_close(&mut self.registry);
                return;
            },
        };
        assert_eq!(n, frame.len() - 4);
        if let Some(envelope) = conn.on_payload(&mut self.registry, &frame[4..]) {
            let delivery = match self.router.route(&self.registry, &envelope) {
                Routed::Deliver { handle, frame, .. } => Some((*handle, frame)),
                Routed::Command(c) => {
                    self.commands.push(c);
                    None
                },
                _ => None,
            };
            if let Some((to, frame)) = delivery {
                self.outboxes[to].push(frame);
            }
        }
    }

    fn take(&mut self, outbox: usize) -> Vec<IpcEnvelope> {
        let frames = std::mem::take(&mut self.outboxes[outbox]);
        frames.iter().map(|f| IpcEnvelope::decode(&f[4..]).unwrap()).collect()
    }
}

fn register(bus: &mut Bus, id: ProcessId) -> Connection<usize> {
    let mut conn = bus.connect();
    let ready = IpcEnvelope::new(id, ProcessId::App, IpcMessage::ProcessReady);
    bus.receive(&mut conn, &ready.encode().unwrap());
    conn
}

#[test]
fn server_client_ping_pong() {
    let mut bus = Bus::new();
    let mut client = register(&mut bus, ProcessId::Theater);

    let ping = IpcEnvelope::new(ProcessId::Theater, ProcessId::App, IpcMessage::Ping);
    bus.receive(&mut client, &ping.encode().unwrap());

    let got = bus.take(0);
    assert_eq!(got.len(), 1);
    let response = &got[0];
    assert_eq!(response.source, ProcessId::App);
    assert_eq!(response.target, ProcessId::Theater);
    assert!(matches!(response.payload, IpcMessage::Pong));
}

#[test]
fn message_routing_between_clients() {
    let mut bus = Bus::new();
    let mut theater_client = register(&mut bus, ProcessId::Theater);
    let mut brain_client = register(&mut bus, ProcessId::Brain);

    let click = IpcEnvelope::new(ProcessId::Theater, ProcessId::Brain, IpcMessage::PetClicked);
    bus.receive(&mut theater_client, &click.encode().unwrap());

    let got = bus.take(1);
    assert_eq!(got.len(), 1);
    let received = &got[0];
    assert_eq!(received.source, ProcessId::Theater);
    assert_eq!(received.target, ProcessId::Brain);
    assert!(matches!(received.payload, IpcMessage::PetClicked));
    assert_eq!(received.timestamp, click.timestamp);
    // the sender receives nothing
    assert!(bus.take(0).is_empty());

    let script = BehaviorScript {
        id: "react".to_string(),
        duration: Some(1.0f32.to_bits()),
        keyframes: vec![Keyframe {
            time: 0.0f32.to_bits(),
            action: Action::PlayAnimation { name: "happy".to_string() },
        }],
        next: None,
        interruptible: true,
    };
    let exec =
        IpcEnvelope::new(ProcessId::Brain, ProcessId::Theater, IpcMessage::ExecuteScript { script });
    bus.receive(&mut brain_client, &exec.encode().unwrap());

    let got = bus.take(0);
    assert_eq!(got.len(), 1);
    let received = &got[0];
    assert_eq!(received.source, ProcessId::Brain);
    assert_eq!(received.target, ProcessId::Theater);
    if let IpcMessage::ExecuteScript { script } = &received.payload {
        assert_eq!(script.id, "react");
    } else {
        panic!("Expected ExecuteScript message");
    }
}

#[test]
fn unreachable_target_is_dropped_and_registry_unchanged() {
    let mut bus = Bus::new();
    let mut theater = register(&mut bus, ProcessId::Theater);
    let lost = IpcEnvelope::new(ProcessId::Theater, ProcessId::Brain, IpcMessage::PetClicked);
    match bus.router.route(&bus.registry, &lost) {
        Routed::Dropped(DropReason::Unreachable(ProcessId::Brain)) => {},
        _ => panic!("not dropped"),
    }
    bus.receive(&mut theater, &lost.encode().unwrap());
    assert!(bus.take(0).is_empty());
    assert_eq!(bus.registry.owner(ProcessId::Theater), Some(0));
    assert!(!bus.registry.is_registered(ProcessId::Brain));
    // a ping from an identity that never registered finds nobody to answer
    let ping = IpcEnvelope::new(ProcessId::Manager, ProcessId::App, IpcMessage::Ping);
    assert!(matches!(
        bus.router.route(&bus.registry, &ping),
        Routed::Dropped(DropReason::Unreachable(ProcessId::Manager))
    ));
}

#[test]
fn second_registration_replaces_the_first_and_survives_its_end() {
    let mut bus = Bus::new();
    let mut a = register(&mut bus, ProcessId::Theater);
    let mut b = register(&mut bus, ProcessId::Theater);
    assert_eq!(bus.registry.lookup(ProcessId::Theater), Some(&1));
    assert_eq!(a.registered_id(), Some(ProcessId::Theater));

    a.on_close(&mut bus.registry);
    assert_eq!(a.registered_id(), None);
    assert_eq!(bus.registry.lookup(ProcessId::Theater), Some(&1));
    assert_eq!(bus.registry.owner(ProcessId::Theater), Some(1));

    // messages for the identity go to the second connection
    let mut brain = register(&mut bus, ProcessId::Brain);
    let hello =
        IpcEnvelope::new(ProcessId::Brain, ProcessId::Theater, IpcMessage::AiThinking { is_thinking: true });
    bus.receive(&mut brain, &hello.encode().unwrap());
    assert!(bus.take(0).is_empty());
    assert_eq!(bus.take(1).len(), 1);

    b.on_close(&mut bus.registry);
    assert!(!bus.registry.is_registered(ProcessId::Theater));
    // closing twice changes nothing
    b.on_close(&mut bus.registry);
    assert!(!bus.registry.is_registered(ProcessId::Theater));
    assert!(bus.registry.is_registered(ProcessId::Brain));
}

#[test]
fn a_connection_registers_one_identity_only() {
    let mut bus = Bus::new();
    let mut conn = register(&mut bus, ProcessId::Tray);
    let again = IpcEnvelope::new(ProcessId::Manager, ProcessId::App, IpcMessage::ProcessReady);
    bus.receive(&mut conn, &again.encode().unwrap());
    assert_eq!(conn.registered_id(), Some(ProcessId::Tray));
    assert!(!bus.registry.is_registered(ProcessId::Manager));
    assert!(bus.registry.is_registered(ProcessId::Tray));
}

#[test]
fn a_malformed_frame_is_passed_over() {
    let mut bus = Bus::new();
    let mut conn = bus.connect();
    let junk = b"not an envelope";
    let mut frame = (junk.len() as u32).to_le_bytes().to_vec();
    frame.extend_from_slice(junk);
    bus.receive(&mut conn, &frame);
    assert_eq!(conn.registered_id(), None);
    // the connection still works
    let ready = IpcEnvelope::new(ProcessId::Settings, ProcessId::App, IpcMessage::ProcessReady);
    bus.receive(&mut conn, &ready.encode().unwrap());
    assert_eq!(conn.registered_id(), Some(ProcessId::Settings));
}

#[test]
fn an_oversized_header_closes_the_connection() {
    assert_eq!(Connection::<usize>::on_header(&[0, 0, 0x10, 0]), ReadStep::Payload(1_048_576));
    assert_eq!(Connection::<usize>::on_header(&[1, 0, 0x10, 0]), ReadStep::Close);
    assert_eq!(Connection::<usize>::on_header(&[5, 0, 0, 0]), ReadStep::Payload(5));
}

#[test]
fn requests_addressed_to_the_coordinator_become_commands() {
    let mut bus = Bus::new();
    let mut tray = register(&mut bus, ProcessId::Tray);
    for m in [
        IpcMessage::TogglePetVisibility,
        IpcMessage::OpenManager,
        IpcMessage::OpenSettings,
        IpcMessage::QuitApp,
    ] {
        let e = IpcEnvelope::new(ProcessId::Tray, ProcessId::App, m);
        bus.receive(&mut tray, &e.encode().unwrap());
    }
    assert_eq!(
        bus.commands,
        vec![
            AppCommand::TogglePetVisibility,
            AppCommand::OpenManager,
            AppCommand::OpenSettings,
            AppCommand::QuitApp
        ]
    );
    let other = IpcEnvelope::new(ProcessId::Tray, ProcessId::App, IpcMessage::PetClicked);
    assert!(matches!(bus.router.route(&bus.registry, &other), Routed::Unhandled));
    let ready = IpcEnvelope::new(ProcessId::Tray, ProcessId::App, IpcMessage::ProcessReady);
    assert!(matches!(bus.router.route(&bus.registry, &ready), Routed::Ready(ProcessId::Tray)));
    assert!(bus.take(0).is_empty());
}

#[test]
fn the_coordinator_sends_to_a_registered_sibling() {
    let mut bus = Bus::new();
    let _tray = register(&mut bus, ProcessId::Tray);
    match MessageRouter::send_at(
        &bus.registry,
        ProcessId::Tray,
        IpcMessage::PetVisibilityChanged { visible: false },
        42,
    ) {
        Routed::Deliver { handle, to, frame } => {
            assert_eq!(*handle, 0);
            assert_eq!(to, ProcessId::Tray);
            let e = IpcEnvelope::decode(&frame[4..]).unwrap();
            assert_eq!(e.source, ProcessId::App);
            assert_eq!(e.timestamp, 42);
            assert!(matches!(e.payload, IpcMessage::PetVisibilityChanged { visible: false }));
        },
        _ => panic!("not delivered"),
    }
    assert!(matches!(
        MessageRouter::send_to(&bus.registry, ProcessId::Theater, IpcMessage::Shutdown),
        Routed::Dropped(DropReason::Unreachable(ProcessId::Theater))
    ));
}
