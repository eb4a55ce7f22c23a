use std::cell::RefCell;
use std::rc::Rc;

use tacit::ble::{
    FfiAnchorCapabilities, FfiDiscoveryEvent, FfiEndpoint, FfiPresenceHint, ForeignBleAdapter,
    ForeignPresenceBackend,
};
use tacit::codec::{decode_payload, encode_payload};
use tacit::command_bus::{Command, CommandBuffer, CommandBus, CommandBusError};
use tacit::error::CoreError;
use tacit::event::{CoreEvent, ErrorScope, SyncReason, SyncStage};
use tacit::event_bus::{
    doc_only, errors_only, only_where, peer_status_only, sync_only, EventBus, EventPredicate,
    EveryEvent,
};
use tacit::frontier::Frontier;
use tacit::ids::{BlockId, DocId, PeerId, SessionId};
use tacit::listener::{EventDispatcher, TacitEventListener};
use tacit::loopback::{extract_peer_id, LoopbackTransport};
use tacit::messages::{
    CapabilityAnnounce, ControlMsg, HintsMsg, IntroduceMsg, KeyRotateMsg, NeedRanges,
    PathPreference, RevokeMsg, SyncAction, TransportEvent,
};
use tacit::model::{
    AckSummary, AnchorCapabilities, DataFrame, DataFrameKind, Endpoint, NetworkType, PresenceHint,
    Priority,
};
use tacit::session::{ExportOutcome, InboundTask, OutboundStep, SyncSession, Tolerance};

#[test]
fn meta_delta_roundtrip() {
    let delta = b"meta delta bytes";
    let encoded = encode_payload(None, delta);
    let (bid, decoded) = decode_payload(&encoded).unwrap();
    assert!(bid.is_none());
    assert_eq!(decoded, delta);
}

#[test]
fn block_delta_roundtrip() {
    let block_id = BlockId::new("block-42");
    let delta = b"block delta bytes";
    let encoded = encode_payload(Some(&block_id), delta);
    let (bid, decoded) = decode_payload(&encoded).unwrap();
    assert_eq!(bid.as_ref().map(|b| b.as_str()), Some("block-42"));
    assert_eq!(decoded, delta);
}

#[test]
fn empty_delta_roundtrip() {
    let block_id = BlockId::new("b1");
    let encoded = encode_payload(Some(&block_id), b"");
    let (bid, decoded) = decode_payload(&encoded).unwrap();
    assert_eq!(bid.as_ref().map(|b| b.as_str()), Some("b1"));
    assert!(decoded.is_empty());
}

#[test]
fn decode_empty_payload_errors() {
    let result = decode_payload(&[]);
    assert!(result.is_err());
}

#[test]
fn decode_unknown_flag_errors() {
    let result = decode_payload(&[0xFF]);
    assert!(result.is_err());
}

#[test]
fn session_codec_roundtrip() {
    let meta = b"meta delta payload";
    let encoded = encode_payload(None, meta);
    let (bid, decoded) = decode_payload(&encoded).unwrap();
    assert!(bid.is_none());
    assert_eq!(decoded, meta);

    let block_id = BlockId::new("block-42");
    let delta = b"block delta payload";
    let encoded = encode_payload(Some(&block_id), delta);
    let (bid, decoded) = decode_payload(&encoded).unwrap();
    assert_eq!(bid.as_ref().map(|b| b.as_str()), Some("block-42"));
    assert_eq!(decoded, delta);
}

#[test]
fn payload_layout_and_faults() {
    let block_id = BlockId::new("ab");
    assert_eq!(encode_payload(Some(&block_id), &[9]), vec![1, 2, 0, b'a', b'b', 9]);
    assert_eq!(encode_payload(None, &[9]), vec![0, 9]);
    assert!(decode_payload(&[1]).is_err());
    assert!(decode_payload(&[1, 5, 0, b'a']).is_err());
    assert!(decode_payload(&[1, 1, 0, 0xff]).is_err());
}

#[test]
fn send_and_recv() {
    let bus = CommandBus::unbounded();
    bus.try_send(Command::RequestFastResume).unwrap();
    let cmd = bus.try_recv().unwrap();
    assert!(matches!(cmd, Command::RequestFastResume));
}

#[test]
fn bounded_queue_full() {
    let bus = CommandBus::bounded(1);
    bus.try_send(Command::RequestFastResume).unwrap();
    let result = bus.try_send(Command::RequestFastResume);
    assert_eq!(result, Err(CommandBusError::QueueFull));
}

#[test]
fn try_recv_empty() {
    let bus = CommandBus::unbounded();
    assert!(bus.try_recv().is_none());
}

#[test]
fn command_buffer_flushes_at_threshold() {
    let bus = CommandBus::unbounded();
    let mut buffer = CommandBuffer::new(bus.clone(), 2);
    buffer.push(Command::RequestFastResume).unwrap();
    assert!(bus.try_recv().is_none());
    buffer.push(Command::RequestFastResume).unwrap();
    assert!(bus.try_recv().is_some());
}

#[test]
fn command_buffer_manual_flush() {
    let bus = CommandBus::unbounded();
    let mut buffer = CommandBuffer::new(bus.clone(), 100);
    buffer.push(Command::RequestFastResume).unwrap();
    assert!(bus.try_recv().is_none());
    buffer.flush().unwrap();
    assert!(bus.try_recv().is_some());
}

#[test]
fn command_buffer_keeps_the_order_and_stops_at_a_full_queue() {
    let bus = CommandBus::bounded(2);
    let mut buffer = CommandBuffer::new(bus.clone(), 100);
    buffer.push(Command::TriggerHotPath).unwrap();
    buffer.push(Command::ExitHotPath).unwrap();
    buffer.push(Command::Shutdown).unwrap();
    assert_eq!(buffer.flush(), Err(CommandBusError::QueueFull));
    assert_eq!(bus.try_recv(), Some(Command::TriggerHotPath));
    assert_eq!(bus.try_recv(), Some(Command::ExitHotPath));
    assert_eq!(bus.try_recv(), None);
    assert_eq!(buffer.flush(), Ok(()));
}

#[test]
fn full_queue_times_out() {
    let bus = CommandBus::bounded(1);
    bus.send_timeout(Command::Shutdown, 5).unwrap();
    assert_eq!(bus.send_timeout(Command::Shutdown, 5), Err(CommandBusError::Timeout));
    assert_eq!(bus.receiver().len(), 1);
    assert_eq!(CommandBusError::Timeout.message(), "命令发送超时");
    assert_eq!(CommandBusError::QueueFull.message(), "命令队列已满");
    assert_eq!(CommandBusError::Disconnected.message(), "命令队列已断开");
}

#[test]
fn default_queue_has_its_capacity() {
    let bus = CommandBus::default();
    for _ in 0..256 {
        bus.try_send(Command::TriggerHotPath).unwrap();
    }
    assert_eq!(bus.try_send(Command::TriggerHotPath), Err(CommandBusError::QueueFull));
}

fn sync_started() -> CoreEvent {
    CoreEvent::SyncStarted { peer_id: PeerId::new("p1"), reason: SyncReason::UserForeground }
}

fn peer_online() -> CoreEvent {
    CoreEvent::PeerStatusChanged { peer_id: PeerId::new("p1"), online: true }
}

fn progress_of(doc: &str) -> CoreEvent {
    CoreEvent::SyncProgress {
        doc_id: DocId::new(doc),
        stage: SyncStage::MetaDoc,
        progress_bits: 0.5f32.to_bits(),
    }
}

#[test]
fn subscribe_and_publish() {
    let mut bus = EventBus::new();
    let (id, rx) = bus.subscribe();
    bus.publish(&sync_started());
    let event = rx.try_recv().unwrap();
    assert!(matches!(event, CoreEvent::SyncStarted { .. }));
    bus.unsubscribe(&id);
    assert_eq!(bus.subscriber_count(), 0);
}

#[test]
fn filter_blocks_unwanted() {
    let mut bus = EventBus::new();
    let (_, rx) = bus.subscribe_with_filter(Some(sync_only()));
    bus.publish(&peer_online());
    assert!(rx.try_recv().is_err());
    bus.publish(&sync_started());
    assert!(rx.try_recv().is_ok());
}

#[test]
fn multiple_subscribers() {
    let mut bus = EventBus::new();
    let (_, rx1) = bus.subscribe();
    let (_, rx2) = bus.subscribe();
    bus.publish(&sync_started());
    assert!(rx1.try_recv().is_ok());
    assert!(rx2.try_recv().is_ok());
}

#[test]
fn doc_filter() {
    let mut bus = EventBus::new();
    let (_, rx) = bus.subscribe_with_filter(Some(doc_only(DocId::new("d1"))));
    bus.publish(&progress_of("d1"));
    assert!(rx.try_recv().is_ok());
    bus.publish(&progress_of("d2"));
    assert!(rx.try_recv().is_err());
}

struct FromPeer(&'static str);

impl EventPredicate for FromPeer {
    fn wants(&self, event: &CoreEvent) -> bool {
        matches!(event, CoreEvent::PeerStatusChanged { peer_id, .. } if peer_id.as_str() == self.0)
    }
}

#[test]
fn subscribers_may_choose_by_a_predicate() {
    let mut bus = EventBus::with_predicates();
    let status = |id: &str| CoreEvent::PeerStatusChanged { peer_id: PeerId::new(id), online: true };
    let (_, rx) = bus.subscribe_with_filter(Some(only_where(FromPeer("p7"))));
    let (_, all) = bus.subscribe();
    assert_eq!(bus.publish(&status("p7")), 2);
    assert_eq!(bus.publish(&status("p8")), 1);
    assert_eq!(bus.publish(&sync_started()), 1);
    assert!(rx.try_recv().is_ok());
    assert!(rx.try_recv().is_err());
    assert_eq!(all.len(), 3);
    assert!(EveryEvent.wants(&sync_started()));
}

#[test]
fn publish_counts_who_was_reached() {
    let mut bus = EventBus::default();
    let (_, rx) = bus.subscribe();
    let (_, _errors) = bus.subscribe_with_filter(Some(errors_only()));
    let (_, _status) = bus.subscribe_with_filter(Some(peer_status_only()));
    assert_eq!(bus.publish(&peer_online()), 2);
    assert_eq!(
        bus.publish(&CoreEvent::ErrorRaised {
            scope: ErrorScope::Sync,
            message: "m".to_string(),
        }),
        2
    );
    for _ in 0..254 {
        assert_eq!(bus.publish(&sync_started()), 1);
    }
    assert_eq!(bus.publish(&sync_started()), 0);
    assert_eq!(rx.len(), 256);
}

struct Recorder {
    events: RefCell<Vec<CoreEvent>>,
}

struct Listening(Rc<Recorder>);

impl TacitEventListener for Listening {
    fn on_event(&self, event: CoreEvent) {
        self.0.events.borrow_mut().push(event);
    }
}

fn recorder() -> Rc<Recorder> {
    Rc::new(Recorder { events: RefCell::new(Vec::new()) })
}

#[test]
fn dispatch_to_listeners() {
    let mut dispatcher = EventDispatcher::new();
    let listener = recorder();
    dispatcher.register(Listening(listener.clone()));
    dispatcher.dispatch(&sync_started());
    assert_eq!(listener.events.borrow().len(), 1);
}

#[test]
fn multiple_listeners() {
    let mut dispatcher = EventDispatcher::new();
    let l1 = recorder();
    let l2 = recorder();
    dispatcher.register(Listening(l1.clone()));
    dispatcher.register(Listening(l2.clone()));
    let event = CoreEvent::SyncCompleted { peer_id: PeerId::new("p2") };
    dispatcher.dispatch(&event);
    assert_eq!(l1.events.borrow().len(), 1);
    assert_eq!(l2.events.borrow().len(), 1);
    assert_eq!(l2.events.borrow()[0], event);
}

struct MockForeignBle {
    broadcasting: RefCell<bool>,
    scanning: RefCell<bool>,
    payload: RefCell<Option<Vec<u8>>>,
    discoveries: RefCell<Vec<FfiDiscoveryEvent>>,
}

struct Radio(Rc<MockForeignBle>);

impl ForeignPresenceBackend for Radio {
    fn start_broadcast(&self, payload: Vec<u8>) -> String {
        *self.0.broadcasting.borrow_mut() = true;
        *self.0.payload.borrow_mut() = Some(payload);
        String::new()
    }

    fn stop_broadcast(&self) {
        *self.0.broadcasting.borrow_mut() = false;
        self.0.payload.borrow_mut().take();
    }

    fn start_scan(&self) -> String {
        *self.0.scanning.borrow_mut() = true;
        String::new()
    }

    fn stop_scan(&self) {
        *self.0.scanning.borrow_mut() = false;
    }

    fn drain_discoveries(&self) -> Vec<FfiDiscoveryEvent> {
        self.0.discoveries.borrow_mut().drain(..).collect()
    }
}

fn mock_ble() -> Rc<MockForeignBle> {
    Rc::new(MockForeignBle {
        broadcasting: RefCell::new(false),
        scanning: RefCell::new(false),
        payload: RefCell::new(None),
        discoveries: RefCell::new(Vec::new()),
    })
}

#[test]
fn foreign_backend_adapts_to_presence_backend() {
    let foreign = mock_ble();
    let adapter = ForeignBleAdapter::new(Radio(foreign.clone()));

    adapter.start_broadcast(vec![1, 2, 3]).unwrap();
    assert!(*foreign.broadcasting.borrow());
    assert_eq!(foreign.payload.borrow().clone(), Some(vec![1, 2, 3]));

    adapter.stop_broadcast();
    assert!(!*foreign.broadcasting.borrow());

    adapter.start_scan().unwrap();
    assert!(*foreign.scanning.borrow());
    adapter.stop_scan();
    assert!(!*foreign.scanning.borrow());
}

#[test]
fn foreign_backend_drain_discoveries_converts_types() {
    let foreign = mock_ble();
    let adapter = ForeignBleAdapter::new(Radio(foreign.clone()));

    foreign.discoveries.borrow_mut().push(FfiDiscoveryEvent {
        peer_id: "peer-001".into(),
        hint: FfiPresenceHint {
            group_id: "group-1".into(),
            device_id: "device-1".into(),
            capabilities: FfiAnchorCapabilities {
                can_anchor: true,
                can_relay: false,
                persistent: false,
            },
            endpoint: Some(FfiEndpoint { host: "192.168.1.1".into(), port: 8080 }),
        },
        rssi: -55,
    });

    let events = adapter.drain_discoveries();
    assert_eq!(events.len(), 1);
    assert_eq!(events[0].peer_id, PeerId::new("peer-001"));
    assert_eq!(events[0].hint.group_id, "group-1");
    assert_eq!(events[0].hint.device_id, "device-1");
    assert!(events[0].hint.capabilities.can_anchor);
    assert_eq!(events[0].rssi, -55);
    assert_eq!(events[0].hint.endpoint, Some(Endpoint::new("192.168.1.1", 8080)));

    assert!(adapter.drain_discoveries().is_empty());
}

#[test]
fn ffi_presence_hint_conversion_roundtrip() {
    let original = PresenceHint {
        group_id: "g1".into(),
        device_id: "dev1".into(),
        capabilities: AnchorCapabilities { can_anchor: true, can_relay: true, persistent: false },
        endpoint: Some(Endpoint::new("10.0.0.1", 9999)),
    };

    let ffi_hint = FfiPresenceHint::of(&original);
    assert_eq!(ffi_hint.group_id, "g1");
    assert_eq!(ffi_hint.device_id, "dev1");
    assert!(ffi_hint.capabilities.can_anchor);
    assert!(ffi_hint.capabilities.can_relay);
    assert!(!ffi_hint.capabilities.persistent);
    assert_eq!(ffi_hint.endpoint.as_ref().unwrap().host, "10.0.0.1");
    assert_eq!(ffi_hint.endpoint.as_ref().unwrap().port, 9999);
    assert_eq!(ffi_hint.into_hint(), original);
}

struct ErrorBackend;

impl ForeignPresenceBackend for ErrorBackend {
    fn start_broadcast(&self, _payload: Vec<u8>) -> String {
        "BLE not available".into()
    }
    fn stop_broadcast(&self) {}
    fn start_scan(&self) -> String {
        "Scan permission denied".into()
    }
    fn stop_scan(&self) {}
    fn drain_discoveries(&self) -> Vec<FfiDiscoveryEvent> {
        Vec::new()
    }
}

#[test]
fn error_propagation_from_foreign_backend() {
    let adapter = ForeignBleAdapter::new(ErrorBackend);
    let result = adapter.start_broadcast(vec![]);
    assert!(result.is_err());
    assert!(result.unwrap_err().message().contains("BLE not available"));

    let result = adapter.start_scan();
    assert!(result.is_err());
    assert!(result.unwrap_err().message().contains("Scan permission denied"));
}

fn frame(payload: Vec<u8>) -> DataFrame {
    DataFrame {
        doc_id: DocId::new("d1"),
        actor_id: PeerId::new("1"),
        seq: 7,
        kind: DataFrameKind::Delta,
        payload,
        session_id: SessionId::new(0),
    }
}

#[test]
fn loopback_carries_frames_and_messages() {
    let (a, mut b) = LoopbackTransport::pair_with_ids(PeerId::new("1"), PeerId::new("2"));
    assert!(!b.has_pending());
    a.send_data(frame(vec![0, 1])).unwrap();
    a.send_control(ControlMsg::NeedRanges(NeedRanges {
        doc_id: DocId::new("d1"),
        block_id: None,
        since: Frontier::new(),
    }))
    .unwrap();
    a.reconnect_peer().unwrap();
    a.notify_network_changed(true, NetworkType::Lan).unwrap();
    assert!(b.has_pending());
    let events = b.drain_events();
    assert_eq!(events.len(), 3);
    assert!(matches!(&events[0], TransportEvent::Data { peer_id, frame }
        if peer_id.as_str() == "1" && frame.seq == 7));
    assert!(matches!(&events[1], TransportEvent::Control { peer_id, .. }
        if peer_id.as_str() == "1"));
    assert_eq!(events[2], TransportEvent::NetworkChanged { online: true });
    assert!(b.drain_events().is_empty());
    assert!(!a.has_pending());
}

#[test]
fn loopback_fails_once_the_other_end_is_gone() {
    let (a, mut b) = LoopbackTransport::pair_with_ids(PeerId::new("1"), PeerId::new("2"));
    assert!(matches!(b.drain_events().len(), 0));
    std::mem::drop(b);
    assert_eq!(
        a.send_data(frame(vec![0])).unwrap_err().message(),
        "内部错误: loopback channel 已关闭"
    );
    assert!(a.reconnect_peer().is_ok());
    assert!(a.notify_network_changed(false, NetworkType::Offline).is_ok());
}

#[test]
fn control_messages_name_their_peer() {
    let p = PeerId::new("9");
    let hints = || HintsMsg { peer_id: PeerId::new("9"), body: vec![] };
    let named = [
        ControlMsg::KnownCheckpoint { peer_id: PeerId::new("9"), body: vec![] },
        ControlMsg::SyncIntent { peer_id: PeerId::new("9"), body: vec![] },
        ControlMsg::TransportHints(hints()),
        ControlMsg::RelayHints(hints()),
        ControlMsg::Introduce(IntroduceMsg { introducer: PeerId::new("9"), body: vec![] }),
        ControlMsg::KeyRotate(KeyRotateMsg { peer_id: PeerId::new("9"), body: vec![] }),
        ControlMsg::Revoke(RevokeMsg {
            revoker: PeerId::new("9"),
            revoked_peer: PeerId::new("8"),
            reason: String::new(),
        }),
    ];
    for msg in named.iter() {
        assert_eq!(extract_peer_id(msg), Some(p.clone()));
    }
    let need =
        NeedRanges { doc_id: DocId::new("d"), block_id: None, since: Frontier::new() };
    assert_eq!(extract_peer_id(&ControlMsg::NeedRanges(need)), None);
}

fn send_action(block: Option<&str>, entry: Option<&str>) -> SyncAction {
    SyncAction::SendData {
        peer_id: PeerId::new("2"),
        doc_id: DocId::new("d1"),
        block_id: block.map(BlockId::new),
        bytes: vec![5, 6],
        priority: Priority::High,
        path: PathPreference::Ble,
        entry_id: entry.map(|e| e.to_string()),
    }
}

#[test]
fn outbound_actions_become_numbered_frames() {
    let mut session = SyncSession::new(PeerId::new("1"));
    let long = "x".repeat(70_000);
    let steps = session.drive_outbound(vec![
        send_action(Some("b1"), Some("e1")),
        SyncAction::RequestDelta {
            peer_id: PeerId::new("2"),
            doc_id: DocId::new("d1"),
            block_id: Some(BlockId::new("b1")),
            since: Frontier::new(),
            priority: Priority::Low,
        },
        send_action(Some(&long), Some("e2")),
        SyncAction::EmitEvent(sync_started()),
        send_action(None, Some("e3")),
    ]);
    assert_eq!(steps.len(), 5);
    assert!(matches!(&steps[0], OutboundStep::SendData { frame, .. }
        if frame.seq == 0 && frame.payload == vec![1, 2, 0, b'b', b'1', 5, 6]
            && frame.actor_id == PeerId::new("1")));
    assert!(matches!(&steps[1], OutboundStep::SendControl { msg: ControlMsg::NeedRanges(need), .. }
        if need.block_id.as_deref() == Some("b1")));
    assert_eq!(steps[2], OutboundStep::Nothing { delivered: Some("e2".to_string()) });
    assert_eq!(steps[3], OutboundStep::Nothing { delivered: None });
    assert!(matches!(&steps[4], OutboundStep::SendData { frame, .. }
        if frame.seq == 1 && frame.payload == vec![0, 5, 6]));
    let sent = vec![true, true, false, false, false];
    assert_eq!(SyncSession::delivered_ids(&steps, &sent), vec!["e1", "e2"]);
}

#[test]
fn a_change_reaches_the_other_engine() {
    let mut session = SyncSession::new(PeerId::new("1"));
    let (a, mut b) = LoopbackTransport::pair_with_ids(PeerId::new("1"), PeerId::new("2"));
    for step in session.drive_outbound(vec![send_action(Some("b1"), None)]) {
        if let OutboundStep::SendData { frame, .. } = step {
            a.send_data(frame).unwrap();
        }
    }
    let mut tasks = Vec::new();
    for event in b.drain_events() {
        tasks.push(SyncSession::handle_transport_event(event, true));
    }
    assert_eq!(tasks.len(), 1);
    assert_eq!(tasks[0].tolerance, Tolerance::Everything);
    assert_eq!(
        tasks[0].task,
        InboundTask::ApplyBlockDelta {
            doc_id: DocId::new("d1"),
            block_id: BlockId::new("b1"),
            delta: vec![5, 6],
            from: PeerId::new("1"),
        }
    );
}

#[test]
fn untrusted_and_unreadable_frames_are_dropped() {
    let p = || PeerId::new("1");
    assert_eq!(SyncSession::handle_inbound_data(p(), frame(vec![0, 1]), false), InboundTask::Ignore);
    assert_eq!(SyncSession::handle_inbound_data(p(), frame(vec![7]), true), InboundTask::Ignore);
    assert_eq!(
        SyncSession::handle_inbound_data(p(), frame(vec![0, 1]), true),
        InboundTask::ApplyMetaDelta { doc_id: DocId::new("d1"), delta: vec![1], from: p() }
    );
}

fn revoke(revoker: &str, revoked: &str) -> ControlMsg {
    ControlMsg::Revoke(RevokeMsg {
        revoker: PeerId::new(revoker),
        revoked_peer: PeerId::new(revoked),
        reason: "lost".to_string(),
    })
}

fn ack(peer: &str) -> ControlMsg {
    ControlMsg::AckSummary(AckSummary {
        peer_id: PeerId::new(peer),
        doc_id: DocId::new("d1"),
        ack_checkpoint: None,
        ack_frontier: Frontier::new(),
        updated_at: 0,
        version_override: None,
    })
}

#[test]
fn peers_speak_for_themselves_only() {
    let p = || PeerId::new("1");
    let handle = |msg: ControlMsg| SyncSession::handle_inbound_control(PeerId::new("1"), msg, true);
    assert_eq!(
        handle(revoke("1", "1")),
        InboundTask::Revoke { peer_id: p(), reason: "lost".to_string() }
    );
    assert_eq!(handle(revoke("1", "2")), InboundTask::Ignore);
    assert_eq!(handle(revoke("2", "2")), InboundTask::Ignore);
    assert!(matches!(handle(ack("1")), InboundTask::Acknowledge { .. }));
    assert_eq!(handle(ack("2")), InboundTask::Ignore);
    assert_eq!(
        handle(ControlMsg::SyncIntent { peer_id: p(), body: vec![] }),
        InboundTask::RequestSync { peer_id: p(), reason: SyncReason::PeerOnline }
    );
    assert_eq!(
        handle(ControlMsg::SyncIntent { peer_id: PeerId::new("2"), body: vec![] }),
        InboundTask::Ignore
    );
    assert_eq!(
        handle(ControlMsg::KnownCheckpoint { peer_id: p(), body: vec![] }),
        InboundTask::Ignore
    );
}

#[test]
fn three_kinds_of_message_need_no_trust() {
    let p = || PeerId::new("1");
    let handle = |msg: ControlMsg| SyncSession::handle_inbound_control(PeerId::new("1"), msg, false);
    assert!(matches!(
        handle(ControlMsg::Introduce(IntroduceMsg { introducer: p(), body: vec![1] })),
        InboundTask::Introduce { .. }
    ));
    assert!(matches!(
        handle(ControlMsg::KeyRotate(KeyRotateMsg { peer_id: p(), body: vec![1] })),
        InboundTask::KeyRotate { .. }
    ));
    let announce = CapabilityAnnounce {
        peer_id: p(),
        frontier: Frontier::new(),
        capabilities: AnchorCapabilities::default(),
    };
    assert!(matches!(handle(ControlMsg::Capabilities(announce)), InboundTask::Summarise { summary, .. }
        if summary.online));
    assert_eq!(handle(revoke("1", "1")), InboundTask::Ignore);
    assert_eq!(handle(ack("1")), InboundTask::Ignore);
}

#[test]
fn only_grave_errors_end_a_session() {
    let crdt = || Err(CoreError::Crdt("bad".to_string()));
    let store = || Err(CoreError::Store("disk".to_string()));
    let internal = || Err(CoreError::Internal("bug".to_string()));
    assert!(SyncSession::settle(Tolerance::PeerFaults, crdt()).is_ok());
    assert!(SyncSession::settle(Tolerance::PeerFaults, store()).is_err());
    assert!(SyncSession::settle(Tolerance::PeerFaults, internal()).is_err());
    assert!(SyncSession::settle(Tolerance::Nothing, crdt()).is_err());
    assert!(SyncSession::settle(Tolerance::Nothing, Ok(())).is_ok());
    let routed = SyncSession::handle_transport_event(
        TransportEvent::NetworkChanged { online: true },
        false,
    );
    assert_eq!(routed.task, InboundTask::FastResume);
    assert_eq!(routed.tolerance, Tolerance::Nothing);
    let routed = SyncSession::handle_transport_event(
        TransportEvent::Control { peer_id: PeerId::new("1"), msg: revoke("1", "1") },
        true,
    );
    assert_eq!(routed.tolerance, Tolerance::PeerFaults);
}

#[test]
fn no_data_frame_ends_a_session() {
    for trusted in [true, false] {
        let routed = SyncSession::handle_transport_event(
            TransportEvent::Data { peer_id: PeerId::new("1"), frame: frame(vec![0, 1]) },
            trusted,
        );
        for answer in [
            Ok(()),
            Err(CoreError::Crdt("bad".to_string())),
            Err(CoreError::Store("disk".to_string())),
            Err(CoreError::Internal("bug".to_string())),
        ] {
            assert!(SyncSession::settle(routed.tolerance, answer).is_ok());
        }
    }
}

#[test]
fn changes_that_cannot_be_had_are_replaced_by_a_snapshot() {
    let mut since = Frontier::new();
    since.set(PeerId::new("1"), 3);
    let request = SyncSession::handle_need_ranges(NeedRanges {
        doc_id: DocId::new("d1"),
        block_id: Some("b1".to_string()),
        since,
    });
    assert_eq!(request.block_id, Some(BlockId::new("b1")));
    assert!(request.since.is_some());
    let to = || PeerId::new("2");
    let again =
        match SyncSession::settle_export(to(), request, Err(CoreError::Crdt("gone".to_string()))) {
            ExportOutcome::Retry(again) => again,
            other => panic!("{:?}", other),
        };
    assert_eq!(again.since, None);
    match SyncSession::settle_export(to(), again, Ok(vec![1, 2])) {
        ExportOutcome::Push(SyncAction::SendData { peer_id, bytes, block_id, .. }) => {
            assert_eq!(peer_id, to());
            assert_eq!(bytes, vec![1, 2]);
            assert_eq!(block_id, Some(BlockId::new("b1")));
        }
        other => panic!("{:?}", other),
    }
    let empty = || {
        SyncSession::handle_need_ranges(NeedRanges {
            doc_id: DocId::new("d1"),
            block_id: None,
            since: Frontier::new(),
        })
    };
    assert_eq!(empty().since, None);
    assert!(matches!(
        SyncSession::settle_export(to(), empty(), Err(CoreError::Crdt("x".to_string()))),
        ExportOutcome::Drop
    ));
    assert!(matches!(
        SyncSession::settle_export(to(), empty(), Err(CoreError::Store("x".to_string()))),
        ExportOutcome::Fail(CoreError::Store(_))
    ));
}
