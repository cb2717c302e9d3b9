//! The typed events of the real-time bus: one case per outcome the core
//! reports and per command a client can issue. The transport encodes
//! each event as one message; unknown inbound tags are dropped by the
//! transport, never an error.
use vstd::prelude::*;

use crate::clock::now_millis;
use crate::session::SessionMetadata;
use crate::state::{
    AgentStatus, AgentType, ApprovalRequest, Finding, OperationalMode, SessionState, SessionStatus,
    Task,
};

verus! {

/// Severity of a log line on the bus.
#[derive(Clone, Copy, Debug, PartialEq, Eq, Structural)]
pub enum LogLevel {
    Debug,
    Info,
    Warn,
    Error,
}

/// An incremental change to a session, for observers that track state.
#[derive(Clone, Debug)]
pub struct SessionDelta {
    pub task_added: Option<Task>,
    pub task_updated: Option<Task>,
    pub approval_added: Option<ApprovalRequest>,
    pub approval_updated: Option<ApprovalRequest>,
    pub finding_added: Option<Finding>,
    pub artifact_added: Option<crate::state::Artifact>,
    pub status_changed: Option<SessionStatus>,
}

/// A scan the planner proposes; arguments ride as opaque structured text.
#[derive(Clone, Debug)]
pub struct ScanRequest {
    pub tool_name: String,
    pub target: String,
    pub args: String,
    pub reasoning: Option<String>,
}

/// The outcome of one executed task.
#[derive(Clone, Debug)]
pub struct TaskResult {
    pub success: bool,
    pub output: String,
    pub structured_data: Option<String>,
    pub duration_ms: u64,
}

/// One message of the bus protocol: outcome events the core publishes
/// and commands observers send back.
#[derive(Clone, Debug)]
pub enum WSEvent {
    SessionCreated { session_id: String, name: String },
    SessionLoaded { session_id: String, state: SessionState },
    SessionUpdated { session_id: String, delta: SessionDelta },
    SessionSaved { session_id: String, timestamp: i64 },
    SessionDeleted { session_id: String },
    SessionList { sessions: Vec<SessionMetadata> },
    AgentStatusChanged { agent: AgentType, status: AgentStatus },
    PlanGenerated { plan: Vec<ScanRequest> },
    TaskQueued { task: Task },
    TaskStarted { task_id: String, started_at: i64 },
    TaskCompleted { task_id: String, result: TaskResult },
    TaskFailed { task_id: String, error: String },
    ApprovalRequired { approval: ApprovalRequest },
    ApprovalGranted { approval_id: String, granted_at: i64 },
    ApprovalDenied { approval_id: String, denied_at: i64, reason: Option<String> },
    FindingDiscovered { finding: Finding },
    LogEntry { level: LogLevel, agent: Option<AgentType>, message: String, timestamp: i64 },
    TorStatus { connected: bool, circuit: Option<String> },
    BrowserStatus { active: bool, url: Option<String> },
    Error { message: String, details: Option<String> },
    CreateSession {
        name: String,
        mode: OperationalMode,
        metadata: Option<Vec<(String, String)>>,
    },
    LoadSession { session_id: String },
    SaveSession { session_id: String },
    DeleteSession { session_id: String },
    ExportSession { session_id: String },
    QueueTask { tool_name: String, target: String, args: Vec<(String, String)> },
    ApproveAction { approval_id: String },
    DenyAction { approval_id: String, reason: Option<String> },
    GetSessionList,
    GetAgentStatus { agent: AgentType },
    Chat { message: String, model: Option<String> },
    ChatResponse { response: String, model: String },
}

impl WSEvent {
    /// A log entry stamped with the current instant.
    pub fn log(level: LogLevel, message: String, agent: Option<AgentType>) -> (r: WSEvent)
        ensures
            r matches WSEvent::LogEntry { level: l, agent: a, message: m, timestamp: _ } && l
                == level && a == agent && m@ == message@,
    {
        let now = now_millis();
        WSEvent::LogEntry { level, agent, message, timestamp: now }
    }

    /// An error report for the bus.
    pub fn error(message: String, details: Option<String>) -> (r: WSEvent)
        ensures
            r matches WSEvent::Error { message: m, details: d } && m@ == message@ && d == details,
    {
        WSEvent::Error { message, details }
    }
}

/// The model label a chat response carries when the collaborator named
/// none.
pub open spec fn chat_model_label(model: Option<Seq<char>>) -> Seq<char> {
    match model {
        Option::Some(m) => m,
        Option::None => "unknown"@,
    }
}

/// The event a chat outcome produces: a response event when the
/// collaborator returned text, and nothing at all when it did not.
pub fn chat_response_event(response: Option<String>, model: Option<String>) -> (r: Option<WSEvent>)
    ensures
        match response {
            Option::Some(text) => r matches Option::Some(ev) && (ev matches WSEvent::ChatResponse {
                response: rs,
                model: m,
            } && rs@ == text@ && m@ == chat_model_label(crate::state::opt_str_view(model))),
            Option::None => r is None,
        },
{
    match response {
        Option::Some(text) => {
            let m = match model {
                Option::Some(m) => m,
                Option::None => {
                    let u: String = "unknown".to_owned();
                    u
                },
            };
            Option::Some(WSEvent::ChatResponse { response: text, model: m })
        },
        Option::None => Option::None,
    }
}

} // verus!
