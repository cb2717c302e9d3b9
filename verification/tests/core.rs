use neurorift_core::CoreError;
use neurorift_core::NeuroRiftCore;
use neurorift_core::decode_session_file;
use neurorift_core::encode_session_file;
use neurorift_core::events::WSEvent;
use neurorift_core::events::chat_response_event;
use neurorift_core::session::SessionManager;
use neurorift_core::state::AgentState;
use neurorift_core::state::Action;
use neurorift_core::state::ActionType;
use neurorift_core::state::ApprovalStatus;
use neurorift_core::state::OperationalMode;
use neurorift_core::state::RiskLevel;
use neurorift_core::state::SessionState;
use neurorift_core::state::SessionStatus;
use neurorift_core::state::Severity;
use neurorift_core::state::Task;
use neurorift_core::state::TaskStatus;

fn assert_tasks_equal(a: &Task, b: &Task) {
    assert_eq!(a.id, b.id);
    assert_eq!(a.tool_name, b.tool_name);
    assert_eq!(a.target, b.target);
    assert_eq!(a.args, b.args);
    assert_eq!(a.status, b.status);
    assert_eq!(a.created_at, b.created_at);
    assert_eq!(a.started_at, b.started_at);
    assert_eq!(a.completed_at, b.completed_at);
}

fn assert_sessions_equal(a: &SessionState, b: &SessionState) {
    assert_eq!(a.id, b.id);
    assert_eq!(a.name, b.name);
    assert_eq!(a.status, b.status);
    assert_eq!(a.mode, b.mode);
    assert_eq!(a.created_at, b.created_at);
    assert_eq!(a.updated_at, b.updated_at);
    assert_eq!(a.task_queue.len(), b.task_queue.len());
    for (x, y) in a.task_queue.iter().zip(b.task_queue.iter()) {
        assert_tasks_equal(x, y);
    }
    assert_eq!(a.approval_queue.len(), b.approval_queue.len());
    for (x, y) in a.approval_queue.iter().zip(b.approval_queue.iter()) {
        assert_eq!(x.id, y.id);
        assert_eq!(x.reason, y.reason);
        assert_eq!(x.created_at, y.created_at);
        assert_eq!(x.status, y.status);
        assert_eq!(x.action.description, y.action.description);
        assert_eq!(x.action.details, y.action.details);
    }
    assert_eq!(a.findings.len(), b.findings.len());
    for (x, y) in a.findings.iter().zip(b.findings.iter()) {
        assert_eq!(x.id, y.id);
        assert_eq!(x.title, y.title);
        assert_eq!(x.severity, y.severity);
        assert_eq!(x.description, y.description);
        assert_eq!(x.tool_source, y.tool_source);
        assert_eq!(x.discovered_at, y.discovered_at);
        assert_eq!(x.details, y.details);
    }
    assert_eq!(a.artifacts.len(), b.artifacts.len());
    assert_eq!(a.metadata, b.metadata);
    assert_eq!(a.agent_states.planner.state, b.agent_states.planner.state);
    assert_eq!(a.agent_states.scribe.last_update, b.agent_states.scribe.last_update);
}

#[test]
fn create_session_ids_unique_and_agents_idle() {
    let mut core = NeuroRiftCore::new(String::from("sessions"));
    let (id1, ev1) = core.create_session(String::from("alpha"), OperationalMode::Offensive, None);
    let (id2, _ev2) = core.create_session(String::from("beta"), OperationalMode::Defensive, None);
    let (id3, _ev3) = core.create_session(String::from("gamma"), OperationalMode::Offensive, None);
    assert_ne!(id1, id2);
    assert_ne!(id1, id3);
    assert_ne!(id2, id3);
    match ev1 {
        WSEvent::SessionCreated { session_id, name } => {
            assert_eq!(session_id, id1);
            assert_eq!(name, "alpha");
        },
        _ => panic!("expected a session-created event"),
    }
    let active = core.get_active_session().expect("active session");
    assert_eq!(active.id, id3);
    assert_eq!(active.status, SessionStatus::Active);
    assert_eq!(active.created_at, active.updated_at);
    assert_eq!(active.agent_states.planner.state, AgentState::Idle);
    assert_eq!(active.agent_states.operator.state, AgentState::Idle);
    assert_eq!(active.agent_states.navigator.state, AgentState::Idle);
    assert_eq!(active.agent_states.analyst.state, AgentState::Idle);
    assert_eq!(active.agent_states.scribe.state, AgentState::Idle);
    assert!(active.task_queue.is_empty());
    assert!(active.approval_queue.is_empty());
}

#[test]
fn session_file_round_trip() {
    let mut s = SessionState::new_with_id(
        String::from("session_test_1"),
        String::from("round trip"),
        OperationalMode::Defensive,
        1_700_000_000_000,
    );
    let args = vec![
        (String::from("ports"), String::from("\"1-1024\"")),
        (String::from("fast"), String::from("true")),
    ];
    s.queue_task_at(
        String::from("portscan"),
        String::from("10.0.0.5"),
        args,
        "abcd1234",
        1_700_000_000_500,
    );
    let action = Action {
        action_type: ActionType::RootCommand,
        description: String::from("run with elevated rights"),
        risk_level: RiskLevel::Critical,
        details: String::from("{\"cmd\":\"scan\"}"),
    };
    s.request_approval_at(action, String::from("needs a human"), "beefcafe", 1_700_000_001_000);
    s.add_finding_at(
        String::from("open port"),
        Severity::Medium,
        String::from("tcp/22 open"),
        String::from("portscan"),
        String::from("{}"),
        "12345678",
        1_700_000_002_000,
    );
    let text = encode_session_file("1.0", &s, 1_700_000_003_000);
    let (version, decoded, saved_at) = decode_session_file(&text).expect("decodes");
    assert_eq!(version, "1.0");
    assert_eq!(saved_at, 1_700_000_003_000);
    assert_sessions_equal(&s, &decoded);
}

#[test]
fn unicode_fields_round_trip() {
    let mut s = SessionState::new_with_id(
        String::from("session_test_2"),
        String::from("ünïcødé — 名前 🚀"),
        OperationalMode::Offensive,
        7,
    );
    s.metadata.push((String::from("clé"), String::from("väl:ue;with,punct")));
    let text = encode_session_file("1.0", &s, 9);
    let (_v, decoded, _t) = decode_session_file(&text).expect("decodes");
    assert_eq!(decoded.name, "ünïcødé — 名前 🚀");
    assert_eq!(decoded.metadata[0].0, "clé");
    assert_eq!(decoded.metadata[0].1, "väl:ue;with,punct");
}

#[test]
fn decode_rejects_garbage() {
    assert!(matches!(decode_session_file("not a session file"), Err(CoreError::DecodeError)));
    assert!(matches!(decode_session_file(""), Err(CoreError::DecodeError)));
    // A truncated but well-formed prefix of a real file must also fail.
    let s = SessionState::new_with_id(
        String::from("x"),
        String::from("y"),
        OperationalMode::Offensive,
        0,
    );
    let text = encode_session_file("1.0", &s, 0);
    let cut = &text[.. text.len() - 3];
    assert!(matches!(decode_session_file(cut), Err(CoreError::DecodeError)));
}

#[test]
fn delete_session_twice_is_safe() {
    let mut core = NeuroRiftCore::new(String::from("sessions"));
    let (id, _ev) = core.create_session(String::from("doomed"), OperationalMode::Offensive, None);
    assert!(core.save_session(&id).is_some());
    let ev1 = core.delete_session(&id);
    match ev1 {
        WSEvent::SessionDeleted { session_id } => assert_eq!(session_id, id),
        _ => panic!("expected a session-deleted event"),
    }
    assert!(core.save_session(&id).is_none());
    assert!(core.get_active_session().is_none());
    // The second deletion is an in-memory no-op; the disk part is the
    // caller's, and reports not-found there.
    let _ev2 = core.delete_session(&id);
    assert!(core.save_session(&id).is_none());
    assert!(core.get_active_session().is_none());
}

#[test]
fn listing_sorts_most_recent_first() {
    let manager = SessionManager::new(String::from("sessions"));
    let mut texts: Vec<String> = Vec::new();
    let mut s1 = SessionState::new_with_id(
        String::from("session_a"),
        String::from("a"),
        OperationalMode::Offensive,
        100,
    );
    let s2 = SessionState::new_with_id(
        String::from("session_b"),
        String::from("b"),
        OperationalMode::Offensive,
        300,
    );
    let s3 = SessionState::new_with_id(
        String::from("session_c"),
        String::from("c"),
        OperationalMode::Offensive,
        200,
    );
    texts.push(encode_session_file("1.0", &s1, 400));
    texts.push(encode_session_file("1.0", &s2, 400));
    texts.push(encode_session_file("1.0", &s3, 400));
    let listed = manager.list_sessions(&texts);
    assert_eq!(listed.len(), 3);
    assert_eq!(listed[0].id, "session_b");
    assert_eq!(listed[1].id, "session_c");
    assert_eq!(listed[2].id, "session_a");
    // Touching a session moves it to the front of the next listing.
    s1.touch_at(999);
    texts[0] = encode_session_file("1.0", &s1, 1000);
    let relisted = manager.list_sessions(&texts);
    assert_eq!(relisted[0].id, "session_a");
    assert_eq!(relisted[0].updated_at, 999);
}

#[test]
fn listing_skips_corrupt_files() {
    let manager = SessionManager::new(String::from("sessions"));
    let s1 = SessionState::new_with_id(
        String::from("session_ok1"),
        String::from("one"),
        OperationalMode::Offensive,
        10,
    );
    let s2 = SessionState::new_with_id(
        String::from("session_ok2"),
        String::from("two"),
        OperationalMode::Defensive,
        20,
    );
    let texts = vec![
        encode_session_file("1.0", &s1, 30),
        String::from("u1;corrupted beyond repair"),
        encode_session_file("1.0", &s2, 30),
    ];
    let listed = manager.list_sessions(&texts);
    assert_eq!(listed.len(), 2);
    assert_eq!(listed[0].id, "session_ok2");
    assert_eq!(listed[1].id, "session_ok1");
}

#[test]
fn queue_task_appends_at_tail() {
    let mut s = SessionState::new_with_id(
        String::from("session_q"),
        String::from("queue"),
        OperationalMode::Offensive,
        1000,
    );
    s.queue_task_at(String::from("one"), String::from("t1"), Vec::new(), "aaaaaaaa", 1500);
    s.queue_task_at(String::from("two"), String::from("t2"), Vec::new(), "bbbbbbbb", 2000);
    assert_eq!(s.task_queue.len(), 2);
    assert_eq!(s.task_queue[0].tool_name, "one");
    assert_eq!(s.task_queue[1].tool_name, "two");
    assert_eq!(s.task_queue[1].status, TaskStatus::Queued);
    assert_eq!(s.task_queue[1].created_at, 2000);
    assert!(s.updated_at == 2000 && s.updated_at > 1500);
    assert_ne!(s.task_queue[0].id, s.task_queue[1].id);
}

#[test]
fn approval_resolves_only_once() {
    let mut s = SessionState::new_with_id(
        String::from("session_ap"),
        String::from("approvals"),
        OperationalMode::Offensive,
        100,
    );
    let action = Action {
        action_type: ActionType::FileWrite,
        description: String::from("write report"),
        risk_level: RiskLevel::Low,
        details: String::from("{}"),
    };
    let id = s.request_approval_at(action, String::from("gate"), "cafebabe", 200);
    assert_eq!(s.approval_queue[0].status, ApprovalStatus::Pending);
    assert!(s.resolve_approval_at(&id, true, 300));
    assert_eq!(s.approval_queue[0].status, ApprovalStatus::Approved);
    let before = s.updated_at;
    // The second attempt is rejected and nothing changes.
    assert!(!s.resolve_approval_at(&id, false, 400));
    assert_eq!(s.approval_queue[0].status, ApprovalStatus::Approved);
    assert_eq!(s.updated_at, before);
    // An unknown id is rejected too.
    assert!(!s.resolve_approval_at("approval_missing_0", true, 500));
}

#[test]
fn end_to_end_queue_save_load() {
    let mut core = NeuroRiftCore::new(String::from("sessions"));
    let (id, _ev) = core.create_session(String::from("recon-1"), OperationalMode::Offensive, None);
    let args = vec![(String::from("ports"), String::from("\"1-1024\""))];
    let ev = core
        .queue_task(String::from("portscan"), String::from("10.0.0.5"), args)
        .expect("active session takes the task");
    match ev {
        WSEvent::TaskQueued { task } => {
            assert_eq!(task.tool_name, "portscan");
            assert_eq!(task.target, "10.0.0.5");
            assert_eq!(task.status, TaskStatus::Queued);
        },
        _ => panic!("expected a task-queued event"),
    }
    let (file_name, text, _save_ev) = core.save_session(&id).expect("resident session saves");
    assert_eq!(file_name, format!("{}.nrs", id));
    // A fresh process: nothing in memory but the file text survives.
    let mut core2 = NeuroRiftCore::new(String::from("sessions"));
    let (loaded_id, version_ok, loaded_ev) = core2.load_session(&text).expect("loads");
    assert_eq!(loaded_id, id);
    assert!(version_ok);
    match loaded_ev {
        WSEvent::SessionLoaded { session_id, state } => {
            assert_eq!(session_id, id);
            assert_eq!(state.task_queue.len(), 1);
        },
        _ => panic!("expected a session-loaded event"),
    }
    let active = core2.get_active_session().expect("loaded session is active");
    assert_eq!(active.task_queue.len(), 1);
    assert_eq!(active.task_queue[0].tool_name, "portscan");
}

#[test]
fn queue_task_without_active_session_is_noop() {
    let mut core = NeuroRiftCore::new(String::from("sessions"));
    assert!(core.queue_task(String::from("x"), String::from("y"), Vec::new()).is_none());
}

#[test]
fn update_agent_status_stamps_record() {
    let mut core = NeuroRiftCore::new(String::from("sessions"));
    let (_id, _ev) = core.create_session(String::from("agents"), OperationalMode::Offensive, None);
    let ev = core
        .update_agent_status(
            neurorift_core::state::AgentType::Planner,
            AgentState::Planning,
            Some(String::from("task_1")),
        )
        .expect("active session present");
    match ev {
        WSEvent::AgentStatusChanged { agent, status } => {
            assert_eq!(agent, neurorift_core::state::AgentType::Planner);
            assert_eq!(status.state, AgentState::Planning);
            assert_eq!(status.current_task, Some(String::from("task_1")));
        },
        _ => panic!("expected an agent-status event"),
    }
    let active = core.get_active_session().expect("active");
    assert_eq!(active.agent_states.planner.state, AgentState::Planning);
    assert_eq!(active.agent_states.operator.state, AgentState::Idle);
}

#[test]
fn export_name_carries_calendar_stamp() {
    let manager = SessionManager::new(String::from("sessions"));
    // 2024-01-15T10:30:00Z in milliseconds since the epoch.
    let name = manager.export_file_name_at("session_x", 1_705_314_600_000);
    assert_eq!(name, "session_x_20240115_103000.nrs");
    let epoch = manager.export_file_name_at("s", 0);
    assert_eq!(epoch, "s_19700101_000000.nrs");
}

#[test]
fn session_file_name_appends_extension() {
    let manager = SessionManager::new(String::from("sessions"));
    assert_eq!(manager.session_file_name("session_42"), "session_42.nrs");
}

#[test]
fn load_tolerates_version_mismatch() {
    let s = SessionState::new_with_id(
        String::from("session_v"),
        String::from("versioned"),
        OperationalMode::Offensive,
        5,
    );
    let text = encode_session_file("0.9", &s, 6);
    let mut core = NeuroRiftCore::new(String::from("sessions"));
    let (id, version_ok, _ev) = core.load_session(&text).expect("mismatch still loads");
    assert_eq!(id, "session_v");
    assert!(!version_ok);
    assert!(core.get_active_session().is_some());
}

#[test]
fn chat_response_requires_text() {
    let ev = chat_response_event(Some(String::from("hello")), None).expect("text yields event");
    match ev {
        WSEvent::ChatResponse { response, model } => {
            assert_eq!(response, "hello");
            assert_eq!(model, "unknown");
        },
        _ => panic!("expected a chat response"),
    }
    let named = chat_response_event(Some(String::from("hi")), Some(String::from("local")));
    match named {
        Some(WSEvent::ChatResponse { model, .. }) => assert_eq!(model, "local"),
        _ => panic!("expected a chat response"),
    }
    assert!(chat_response_event(None, Some(String::from("local"))).is_none());
}

#[test]
fn ranks_order_ascending() {
    assert!(RiskLevel::Low.rank() < RiskLevel::Medium.rank());
    assert!(RiskLevel::Medium.rank() < RiskLevel::High.rank());
    assert!(RiskLevel::High.rank() < RiskLevel::Critical.rank());
    assert!(Severity::Info.rank() < Severity::Low.rank());
    assert!(Severity::High.rank() < Severity::Critical.rank());
}

#[test]
fn error_labels_name_each_case() {
    assert_eq!(CoreError::NotFound.label(), "not found");
    assert_eq!(CoreError::DecodeError.label(), "decode error");
    assert_eq!(CoreError::IoError.label(), "io error");
    assert_eq!(CoreError::CollaboratorError.label(), "collaborator error");
}
