use std::cell::RefCell;

use tacit::command_bus::{Command, CommandBus, CommandBusError};
use tacit::doc_executor::{actor_works, closed_error, ActorEvent, DocExecutorRegistry};
use tacit::engine::{
    block_kind_of, check_edit_size, count_compacted, document_view, drain_actions, identity_of_record,
    local_change, path_to_str, priority_to_u8, record_of_identity, EngineState,
    SYNC_EDIT_MAX_BYTES,
};
use tacit::error::CoreError;
use tacit::event::{CoreEvent, ErrorScope};
use tacit::ffi_error::TacitFfiError;
use tacit::frontier::Frontier;
use tacit::identity::DeviceIdentity;
use tacit::ids::{BlockId, DocId, PeerId};
use tacit::language::TargetLanguage;
use tacit::listener::{lost_event_json, ForeignEventListener, ForeignListenerAdapter};
use tacit::messages::{ControlMsg, PathPreference, SyncAction};
use tacit::model::{ApplyResult, BlockKind, BlockRecord, Priority};
use tacit::runtime::{
    command_report, loop_step, BackgroundTask, CommandPlan, EngineCall, Job, LoopStep,
    RuntimeConfig, RuntimeState, RuntimeSupervisor,
};
use tacit::view::FfiSyncAction;

#[test]
fn sync_status() {
    let engine = EngineState::new();
    let status = engine.sync_status(0, 0);
    assert_eq!(status.pending_actions, 0);
    assert_eq!(status.online_peers, 0);
}

#[test]
fn peer_online_triggers_sync() {
    let mut engine = EngineState::new();
    let event = engine.on_peer_online(&PeerId::new("2"));
    assert_eq!(event, CoreEvent::PeerStatusChanged { peer_id: PeerId::new("2"), online: true });
    let status = engine.sync_status(3, 4);
    assert_eq!(status.online_peers, 1);
    assert_eq!(status.pending_actions, 3);
    assert_eq!(status.pending_fetches, 4);
    engine.on_peer_online(&PeerId::new("2"));
    assert_eq!(engine.sync_status(0, 0).online_peers, 1);
}

#[test]
fn network_changes_are_taken_in() {
    let mut engine = EngineState::new();
    engine.on_peer_online(&PeerId::new("2"));
    let back = engine.notify_network_changed(true, "lan");
    assert!(back.resume);
    assert_eq!(
        back.event,
        CoreEvent::PeerStatusChanged { peer_id: PeerId::new("network"), online: true }
    );
    assert!(!engine.notify_network_changed(true, "wan").resume);
    assert_eq!(engine.sync_status(0, 0).online_peers, 1);
    assert!(!engine.notify_network_changed(false, "offline").resume);
    assert_eq!(engine.sync_status(0, 0).online_peers, 0);
    assert!(!engine.notify_network_changed(true, "something").resume);
    assert!(engine.notify_network_changed(true, "wan").resume);
}

#[test]
fn names_and_numbers_for_the_platform() {
    assert_eq!(priority_to_u8(Priority::High), 0);
    assert_eq!(priority_to_u8(Priority::Medium), 1);
    assert_eq!(priority_to_u8(Priority::Low), 2);
    assert_eq!(path_to_str(PathPreference::Any), "any");
    assert_eq!(path_to_str(PathPreference::Ble), "ble");
    assert_eq!(path_to_str(PathPreference::LanQuic), "lan_quic");
    assert_eq!(path_to_str(PathPreference::WanQuic), "wan_quic");
    assert_eq!(path_to_str(PathPreference::Relay), "relay");
    assert_eq!(block_kind_of("todo"), BlockKind::Todo);
    assert_eq!(block_kind_of("settings"), BlockKind::Settings);
    assert_eq!(block_kind_of("log"), BlockKind::Log);
    assert_eq!(block_kind_of("text"), BlockKind::Text);
    assert_eq!(block_kind_of("anything"), BlockKind::Text);
}

#[test]
fn large_edits_are_refused() {
    assert!(check_edit_size(&vec![0u8; SYNC_EDIT_MAX_BYTES]).is_ok());
    let e = check_edit_size(&vec![0u8; SYNC_EDIT_MAX_BYTES + 1]).unwrap_err();
    assert!(e.message().contains("1048577 字节 > 1048576 字节"));
}

#[test]
fn documents_are_shown() {
    let record = |id: &str| BlockRecord {
        block_id: BlockId::new(id),
        kind: BlockKind::Text,
        deleted: false,
        updated_at: 0,
    };
    let view = document_view(
        &DocId::new("doc1"),
        Some("note".to_string()),
        &vec![record("b1"), record("b2")],
        "{}".to_string(),
    )
    .unwrap();
    assert_eq!(view.doc_id, "doc1");
    assert_eq!(view.kind, "note");
    assert_eq!(view.block_ids, vec!["b1", "b2"]);
    assert_eq!(view.frontier_json, "{}");
    let missing = document_view(&DocId::new("doc2"), None, &Vec::new(), String::new());
    assert!(matches!(missing, Err(CoreError::Store(m)) if m == "文档不存在: doc2"));
}

fn control_action() -> SyncAction {
    SyncAction::SendControl {
        peer_id: PeerId::new("2"),
        msg: ControlMsg::SyncIntent { peer_id: PeerId::new("1"), body: vec![] },
        priority: Priority::Low,
    }
}

fn event(n: &str) -> CoreEvent {
    CoreEvent::SyncCompleted { peer_id: PeerId::new(n) }
}

#[test]
fn actions_are_handed_out() {
    let actions = vec![
        SyncAction::EmitEvent(event("1")),
        SyncAction::SendData {
            peer_id: PeerId::new("2"),
            doc_id: DocId::new("d"),
            block_id: Some(BlockId::new("b")),
            bytes: vec![1, 2],
            priority: Priority::High,
            path: PathPreference::Relay,
            entry_id: Some("e".to_string()),
        },
        control_action(),
        SyncAction::RequestDelta {
            peer_id: PeerId::new("2"),
            doc_id: DocId::new("d"),
            block_id: None,
            since: Frontier::new(),
            priority: Priority::Medium,
        },
        SyncAction::EmitEvent(event("2")),
    ];
    let texts = vec![
        Ok("event".to_string()),
        Ok(String::new()),
        Ok("msg".to_string()),
        Ok("since".to_string()),
        Err("lost".to_string()),
    ];
    let drained = drain_actions(&actions, texts);
    assert_eq!(drained.events, vec![event("1"), event("2")]);
    let out = drained.actions.unwrap();
    assert_eq!(out.len(), 5);
    assert!(matches!(&out[0], FfiSyncAction::EmitEvent { event_json } if event_json == "event"));
    assert!(matches!(&out[1], FfiSyncAction::SendData { action }
        if action.data == vec![1, 2] && action.priority == 0 && action.path == "relay"
            && action.block_id.as_deref() == Some("b") && action.entry_id.as_deref() == Some("e")));
    assert!(matches!(&out[2], FfiSyncAction::SendControl { action }
        if action.msg_json == "msg" && action.priority == 2));
    assert!(matches!(&out[3], FfiSyncAction::RequestDelta { action }
        if action.since_json == "since" && action.block_id.is_none() && action.priority == 1));
    assert!(matches!(&out[4], FfiSyncAction::EmitEvent { event_json } if event_json == "{}"));
}

#[test]
fn nothing_is_handed_out_where_json_fails() {
    let actions =
        vec![SyncAction::EmitEvent(event("1")), control_action(), SyncAction::EmitEvent(event("2"))];
    let texts = vec![Ok("a".to_string()), Err("bad".to_string()), Ok("b".to_string())];
    let drained = drain_actions(&actions, texts);
    assert_eq!(drained.events, vec![event("1")]);
    assert!(matches!(drained.actions, Err(CoreError::Serialize(m)) if m == "bad"));
}

struct Platform {
    heard: RefCell<Vec<String>>,
}

impl ForeignEventListener for &Platform {
    fn on_event(&self, event_json: String) {
        self.heard.borrow_mut().push(event_json);
    }
}

#[test]
fn foreign_listeners_are_told_json() {
    let platform = Platform { heard: RefCell::new(Vec::new()) };
    let adapter = ForeignListenerAdapter::new(&platform);
    adapter.on_event(Ok("{\"SyncCompleted\":{\"peer_id\":\"2\"}}".to_string()));
    adapter.on_event(Err("no memory".to_string()));
    let heard = platform.heard.borrow();
    assert_eq!(heard.len(), 2);
    assert_eq!(heard[0], "{\"SyncCompleted\":{\"peer_id\":\"2\"}}");
    assert_eq!(heard[1], lost_event_json("no memory"));
}

#[test]
fn lost_events_are_reported_as_json() {
    let json = lost_event_json("a \"quoted\" reason");
    let value: serde_json::Value = serde_json::from_str(&json).unwrap();
    assert_eq!(value["ErrorRaised"]["message"], "事件序列化失败: a \"quoted\" reason");
    assert_eq!(value["ErrorRaised"]["scope"], "Sync");
}

#[test]
fn identity_is_stored_and_restored() {
    let identity = DeviceIdentity::generate().unwrap();
    let rec = record_of_identity(&identity, 5);
    assert_eq!(rec.created_at, 5);
    let back = identity_of_record(Some(rec)).unwrap().unwrap();
    assert_eq!(back.peer_id(), identity.peer_id());
    assert_eq!(back.binding_proof(), identity.binding_proof());
    assert!(identity_of_record(None).unwrap().is_none());
    let mut short = record_of_identity(&identity, 5);
    short.static_public.pop();
    assert!(matches!(identity_of_record(Some(short)), Err(CoreError::Crypto(_))));
    let mut cut = record_of_identity(&identity, 5);
    cut.binding_proof.pop();
    assert!(matches!(identity_of_record(Some(cut)), Err(CoreError::Crypto(_))));
}

#[test]
fn errors_cross_to_the_platform() {
    let cases = [
        (CoreError::DocNotFound("d".into()), "文档不存在: d"),
        (
            CoreError::BlockNotFound { doc_id: "d".into(), block_id: "b".into() },
            "block 不存在: doc=d block=b",
        ),
        (CoreError::InvalidFrontier("f".into()), "frontier 非法: f"),
        (CoreError::PeerNotFound("p".into()), "内部错误: p"),
        (CoreError::Serialize("s".into()), "内部错误: 序列化失败: s"),
        (CoreError::Deserialize("s".into()), "内部错误: 反序列化失败: s"),
        (CoreError::Store("s".into()), "存储错误: s"),
        (CoreError::Crdt("s".into()), "CRDT 错误: s"),
        (CoreError::Transport("s".into()), "传输错误: s"),
        (CoreError::Crypto("s".into()), "加密错误: s"),
        (CoreError::Sync("s".into()), "同步错误: s"),
        (CoreError::Config("s".into()), "配置错误: s"),
        (CoreError::Io("s".into()), "IO 错误: s"),
        (CoreError::Internal("s".into()), "内部错误: s"),
    ];
    for (core, text) in cases {
        assert_eq!(TacitFfiError::of_core(core).message(), text);
    }
    assert_eq!(
        TacitFfiError::of_command_bus(CommandBusError::QueueFull).message(),
        "命令总线错误: 命令队列已满"
    );
}

#[test]
fn supervisor_runs_through_its_states() {
    let config = RuntimeConfig::default();
    let bus = CommandBus::unbounded();
    let mut supervisor = RuntimeSupervisor::new(bus.clone(), config);
    assert_eq!(supervisor.state(), RuntimeState::Initialized);
    let tasks = supervisor.start().unwrap();
    assert_eq!(
        tasks,
        vec![
            BackgroundTask::Commands,
            BackgroundTask::Periodic { job: Job::ProcessPending, interval: 1_000 },
            BackgroundTask::Periodic { job: Job::DrainActions, interval: 50 },
            BackgroundTask::Periodic { job: Job::CompactAll, interval: 60_000 },
        ]
    );
    assert!(supervisor.start().is_err());
    assert!(supervisor.periodic_continues());
    assert!(matches!(supervisor.next_step(), LoopStep::Sleep(10)));
    bus.try_send(Command::TriggerHotPath).unwrap();
    bus.try_send(Command::Shutdown).unwrap();
    bus.try_send(Command::ExitHotPath).unwrap();
    let mut executed = 0;
    loop {
        match supervisor.next_step() {
            LoopStep::Execute(cmd) => {
                supervisor.execute_command(cmd);
                executed += 1;
            }
            LoopStep::Sleep(_) => panic!("nothing to wait for"),
            LoopStep::Exit => break,
        }
    }
    assert_eq!(executed, 3);
    assert_eq!(supervisor.state(), RuntimeState::ShuttingDown);
    assert!(!supervisor.periodic_continues());
    supervisor.stop();
    assert_eq!(supervisor.state(), RuntimeState::Stopped);
    supervisor.command_bus().try_send(Command::Shutdown).unwrap();
    assert!(matches!(supervisor.next_step(), LoopStep::Exit));
}

#[test]
fn shutdown_waits_for_the_start() {
    let mut supervisor = RuntimeSupervisor::new(CommandBus::new(), RuntimeConfig::default());
    supervisor.initiate_shutdown();
    assert_eq!(supervisor.state(), RuntimeState::Initialized);
    supervisor.start().unwrap();
    supervisor.initiate_shutdown();
    assert_eq!(supervisor.state(), RuntimeState::ShuttingDown);
    assert!(matches!(loop_step(RuntimeState::Stopped, Some(Command::Shutdown), 1), LoopStep::Exit));
}

#[test]
fn commands_become_calls() {
    let mut supervisor = RuntimeSupervisor::new(CommandBus::new(), RuntimeConfig::default());
    let plan = supervisor.execute_command(Command::ApplyUserEdit {
        doc_id: DocId::new("d"),
        block_id: BlockId::new("b"),
        edit_bytes: vec![1],
    });
    assert!(matches!(plan, CommandPlan::InTurn { doc_id, call: EngineCall::ApplyUserEdit { .. } }
        if doc_id == DocId::new("d")));
    let plan = supervisor.execute_command(Command::PeerOnline { peer_id: PeerId::new("2") });
    assert!(matches!(plan, CommandPlan::Direct(EngineCall::OnPeerOnline { .. })));
    assert!(matches!(supervisor.execute_command(Command::Shutdown), CommandPlan::Done));
    assert!(command_report(Ok(())).is_none());
    assert_eq!(
        command_report(Err(CoreError::Sync("m".to_string()))),
        Some(CoreEvent::ErrorRaised { scope: ErrorScope::Sync, message: "同步错误: m".to_string() })
    );
}

#[derive(Debug, PartialEq)]
struct Actor {
    doc: String,
    timeout: u64,
    closed: bool,
}

fn actor(doc: &DocId, timeout: u64) -> Actor {
    Actor { doc: doc.0.clone(), timeout, closed: false }
}

#[test]
fn actors_are_shared_until_they_close() {
    let mut registry: DocExecutorRegistry<Actor> = DocExecutorRegistry::with_idle_timeout(50);
    assert!(registry.is_empty());
    let made = registry.get_or_create(&DocId::new("d1"), |a: &Actor| a.closed, actor);
    assert_eq!(made.timeout, 50);
    let again = registry.get_or_create(
        &DocId::new("d1"),
        |a: &Actor| a.closed,
        |_: &DocId, _: u64| -> Actor { panic!("it is there") },
    );
    assert_eq!(again.doc, "d1");
    let another = registry.get_or_create(
        &DocId::new("d1"),
        |_: &Actor| true,
        |doc: &DocId, _: u64| actor(doc, 1),
    );
    assert_eq!(another.timeout, 1);
    assert_eq!(registry.len(), 1);
    registry.get_or_create(&DocId::new("d2"), |a: &Actor| a.closed, |doc: &DocId, timeout: u64| {
        Actor { closed: true, ..actor(doc, timeout) }
    });
    assert_eq!(registry.cleanup_closed(|a: &Actor| a.closed), 1);
    assert!(registry.get(&DocId::new("d2")).is_none());
    assert!(registry.get(&DocId::new("d1")).is_some());
    registry.remove(&DocId::new("d1"));
    assert!(registry.is_empty());
}

#[test]
fn actors_end_when_idle_or_closed() {
    assert!(actor_works(ActorEvent::Work));
    assert!(!actor_works(ActorEvent::Closed));
    assert!(!actor_works(ActorEvent::IdleTimeout));
    assert_eq!(closed_error(&DocId::new("d")).message(), "同步错误: DocActor 队列已关闭: doc_id=d");
}

#[test]
fn languages_are_parsed() {
    assert_eq!(TargetLanguage::parse("Kotlin").unwrap(), TargetLanguage::Kotlin);
    assert_eq!(TargetLanguage::parse("SWIFT").unwrap(), TargetLanguage::Swift);
    assert_eq!(TargetLanguage::parse("py").unwrap().name(), "Python");
    let e = TargetLanguage::parse("Ruby").unwrap_err();
    assert!(e.message().contains("不支持的语言: ruby（可选: kotlin, swift, python）"));
}

#[test]
fn local_edits_are_reported() {
    let mut new_frontier = Frontier::new();
    new_frontier.set(PeerId::new("1"), 3);
    let change = local_change(
        DocId::new("d"),
        BlockId::new("b"),
        vec![1, 2],
        ApplyResult { new_frontier, has_delta: true },
    );
    assert_eq!(change.doc_id, DocId::new("d"));
    assert_eq!(change.block_id, Some(BlockId::new("b")));
    assert_eq!(change.delta, vec![1, 2]);
    assert_eq!(change.frontier.get(&PeerId::new("1")), Some(3));
}

#[test]
fn failed_compactions_are_passed_over() {
    let answers = vec![Ok(true), Err(CoreError::Store("x".to_string())), Ok(false), Ok(true)];
    assert_eq!(count_compacted(&answers), 2);
}
