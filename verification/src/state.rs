//! The session data model: pure data and mutation helpers, no I/O.
//!
//! Every mutating operation has a deterministic core (`*_at`) that takes
//! the current instant and a fresh-entropy string as arguments and is
//! specified exactly, and a convenience form that draws both from the
//! environment.
use vstd::prelude::*;

use crate::clock::now_millis;
use crate::ident::{id_chars, lemma_id_serial_injective, make_id, fresh_entropy};

verus! {

/// Operational mode of a session; immutable after creation.
#[derive(Clone, Copy, Debug, PartialEq, Eq, Structural)]
pub enum OperationalMode {
    Offensive,
    Defensive,
}

/// Lifecycle status of a session.
#[derive(Clone, Copy, Debug, PartialEq, Eq, Structural)]
pub enum SessionStatus {
    Active,
    Paused,
    Completed,
    Failed,
}

/// The five known agent kinds.
#[derive(Clone, Copy, Debug, PartialEq, Eq, Structural)]
pub enum AgentType {
    Planner,
    Operator,
    Navigator,
    Analyst,
    Scribe,
}

/// What an agent is currently doing. Any state is reachable from any
/// other: the value is a label, not a state machine.
#[derive(Clone, Copy, Debug, PartialEq, Eq, Structural)]
pub enum AgentState {
    Idle,
    Planning,
    Executing,
    Analyzing,
    Writing,
    WaitingApproval,
    Error,
}

/// Status of a queued task; transitions only move forward.
#[derive(Clone, Copy, Debug, PartialEq, Eq, Structural)]
pub enum TaskStatus {
    Queued,
    Running,
    Completed,
    Failed,
    Cancelled,
}

/// The kind of action an approval gates.
#[derive(Clone, Copy, Debug, PartialEq, Eq, Structural)]
pub enum ActionType {
    ToolExecution,
    BrowserNavigation,
    FormSubmission,
    FileWrite,
    RootCommand,
}

/// Risk attached to an action, ordered ascending.
#[derive(Clone, Copy, Debug, PartialEq, Eq, Structural)]
pub enum RiskLevel {
    Low,
    Medium,
    High,
    Critical,
}

/// Outcome of an approval; `Pending` is the only non-terminal state.
#[derive(Clone, Copy, Debug, PartialEq, Eq, Structural)]
pub enum ApprovalStatus {
    Pending,
    Approved,
    Denied,
}

/// Severity of a finding, ordered ascending.
#[derive(Clone, Copy, Debug, PartialEq, Eq, Structural)]
pub enum Severity {
    Info,
    Low,
    Medium,
    High,
    Critical,
}

/// Kind of a recorded artifact.
#[derive(Clone, Copy, Debug, PartialEq, Eq, Structural)]
pub enum ArtifactType {
    Report,
    Screenshot,
    Log,
    Data,
    Other,
}

impl RiskLevel {
    /// Position in the ascending risk order.
    pub open spec fn rank_spec(&self) -> u64 {
        match self {
            RiskLevel::Low => 0,
            RiskLevel::Medium => 1,
            RiskLevel::High => 2,
            RiskLevel::Critical => 3,
        }
    }

    /// Position in the ascending risk order.
    pub fn rank(&self) -> (r: u64)
        ensures
            r == self.rank_spec(),
    {
        match self {
            RiskLevel::Low => 0,
            RiskLevel::Medium => 1,
            RiskLevel::High => 2,
            RiskLevel::Critical => 3,
        }
    }
}

impl Severity {
    /// Position in the ascending severity order.
    pub open spec fn rank_spec(&self) -> u64 {
        match self {
            Severity::Info => 0,
            Severity::Low => 1,
            Severity::Medium => 2,
            Severity::High => 3,
            Severity::Critical => 4,
        }
    }

    /// Position in the ascending severity order.
    pub fn rank(&self) -> (r: u64)
        ensures
            r == self.rank_spec(),
    {
        match self {
            Severity::Info => 0,
            Severity::Low => 1,
            Severity::Medium => 2,
            Severity::High => 3,
            Severity::Critical => 4,
        }
    }
}

// ---------------------------------------------------------------------------
// Entities
// ---------------------------------------------------------------------------

/// Status record of one agent kind.
#[derive(Clone, Debug)]
pub struct AgentStatus {
    pub agent: AgentType,
    pub state: AgentState,
    pub current_task: Option<String>,
    pub last_update: i64,
}

/// One record per known agent kind, always all five.
#[derive(Clone, Debug)]
pub struct AgentTable {
    pub planner: AgentStatus,
    pub operator: AgentStatus,
    pub navigator: AgentStatus,
    pub analyst: AgentStatus,
    pub scribe: AgentStatus,
}

/// A unit of queued work.
#[derive(Clone, Debug)]
pub struct Task {
    pub id: String,
    pub tool_name: String,
    pub target: String,
    pub args: Vec<(String, String)>,
    pub status: TaskStatus,
    pub created_at: i64,
    pub started_at: Option<i64>,
    pub completed_at: Option<i64>,
}

/// The action an approval request gates. `details` is an opaque
/// structured payload carried as text.
#[derive(Clone, Debug)]
pub struct Action {
    pub action_type: ActionType,
    pub description: String,
    pub risk_level: RiskLevel,
    pub details: String,
}

/// A human-in-the-loop gate on a risky action.
#[derive(Clone, Debug)]
pub struct ApprovalRequest {
    pub id: String,
    pub action: Action,
    pub reason: String,
    pub created_at: i64,
    pub status: ApprovalStatus,
}

/// A discovered result worth recording.
#[derive(Clone, Debug)]
pub struct Finding {
    pub id: String,
    pub title: String,
    pub severity: Severity,
    pub description: String,
    pub tool_source: String,
    pub discovered_at: i64,
    pub details: String,
}

/// A file produced during a session.
#[derive(Clone, Debug)]
pub struct Artifact {
    pub id: String,
    pub artifact_type: ArtifactType,
    pub name: String,
    pub path: String,
    pub created_at: i64,
    pub metadata: Vec<(String, String)>,
}

/// Complete state of one session.
#[derive(Clone, Debug)]
pub struct SessionState {
    pub id: String,
    pub name: String,
    pub status: SessionStatus,
    pub mode: OperationalMode,
    pub created_at: i64,
    pub updated_at: i64,
    pub task_queue: Vec<Task>,
    pub approval_queue: Vec<ApprovalRequest>,
    pub agent_states: AgentTable,
    pub findings: Vec<Finding>,
    pub artifacts: Vec<Artifact>,
    pub metadata: Vec<(String, String)>,
}

// ---------------------------------------------------------------------------
// Mathematical views
// ---------------------------------------------------------------------------

#[verifier::ext_equal]
pub struct AgentStatusV {
    pub agent: AgentType,
    pub state: AgentState,
    pub current_task: Option<Seq<char>>,
    pub last_update: i64,
}

#[verifier::ext_equal]
pub struct AgentTableV {
    pub planner: AgentStatusV,
    pub operator: AgentStatusV,
    pub navigator: AgentStatusV,
    pub analyst: AgentStatusV,
    pub scribe: AgentStatusV,
}

#[verifier::ext_equal]
pub struct TaskV {
    pub id: Seq<char>,
    pub tool_name: Seq<char>,
    pub target: Seq<char>,
    pub args: Seq<(Seq<char>, Seq<char>)>,
    pub status: TaskStatus,
    pub created_at: i64,
    pub started_at: Option<i64>,
    pub completed_at: Option<i64>,
}

#[verifier::ext_equal]
pub struct ActionV {
    pub action_type: ActionType,
    pub description: Seq<char>,
    pub risk_level: RiskLevel,
    pub details: Seq<char>,
}

#[verifier::ext_equal]
pub struct ApprovalRequestV {
    pub id: Seq<char>,
    pub action: ActionV,
    pub reason: Seq<char>,
    pub created_at: i64,
    pub status: ApprovalStatus,
}

#[verifier::ext_equal]
pub struct FindingV {
    pub id: Seq<char>,
    pub title: Seq<char>,
    pub severity: Severity,
    pub description: Seq<char>,
    pub tool_source: Seq<char>,
    pub discovered_at: i64,
    pub details: Seq<char>,
}

#[verifier::ext_equal]
pub struct ArtifactV {
    pub id: Seq<char>,
    pub artifact_type: ArtifactType,
    pub name: Seq<char>,
    pub path: Seq<char>,
    pub created_at: i64,
    pub metadata: Seq<(Seq<char>, Seq<char>)>,
}

#[verifier::ext_equal]
pub struct SessionStateV {
    pub id: Seq<char>,
    pub name: Seq<char>,
    pub status: SessionStatus,
    pub mode: OperationalMode,
    pub created_at: i64,
    pub updated_at: i64,
    pub task_queue: Seq<TaskV>,
    pub approval_queue: Seq<ApprovalRequestV>,
    pub agent_states: AgentTableV,
    pub findings: Seq<FindingV>,
    pub artifacts: Seq<ArtifactV>,
    pub metadata: Seq<(Seq<char>, Seq<char>)>,
}

/// View of an optional string.
pub open spec fn opt_str_view(o: Option<String>) -> Option<Seq<char>> {
    match o {
        Option::Some(s) => Option::Some(s@),
        Option::None => Option::None,
    }
}

/// View of a sequence of string pairs.
pub open spec fn pairs_view(s: Seq<(String, String)>) -> Seq<(Seq<char>, Seq<char>)> {
    s.map_values(|p: (String, String)| (p.0@, p.1@))
}

impl View for AgentStatus {
    type V = AgentStatusV;

    open spec fn view(&self) -> AgentStatusV {
        AgentStatusV {
            agent: self.agent,
            state: self.state,
            current_task: opt_str_view(self.current_task),
            last_update: self.last_update,
        }
    }
}

impl View for AgentTable {
    type V = AgentTableV;

    open spec fn view(&self) -> AgentTableV {
        AgentTableV {
            planner: self.planner@,
            operator: self.operator@,
            navigator: self.navigator@,
            analyst: self.analyst@,
            scribe: self.scribe@,
        }
    }
}

impl View for Task {
    type V = TaskV;

    open spec fn view(&self) -> TaskV {
        TaskV {
            id: self.id@,
            tool_name: self.tool_name@,
            target: self.target@,
            args: pairs_view(self.args@),
            status: self.status,
            created_at: self.created_at,
            started_at: self.started_at,
            completed_at: self.completed_at,
        }
    }
}

impl View for Action {
    type V = ActionV;

    open spec fn view(&self) -> ActionV {
        ActionV {
            action_type: self.action_type,
            description: self.description@,
            risk_level: self.risk_level,
            details: self.details@,
        }
    }
}

impl View for ApprovalRequest {
    type V = ApprovalRequestV;

    open spec fn view(&self) -> ApprovalRequestV {
        ApprovalRequestV {
            id: self.id@,
            action: self.action@,
            reason: self.reason@,
            created_at: self.created_at,
            status: self.status,
        }
    }
}

impl View for Finding {
    type V = FindingV;

    open spec fn view(&self) -> FindingV {
        FindingV {
            id: self.id@,
            title: self.title@,
            severity: self.severity,
            description: self.description@,
            tool_source: self.tool_source@,
            discovered_at: self.discovered_at,
            details: self.details@,
        }
    }
}

impl View for Artifact {
    type V = ArtifactV;

    open spec fn view(&self) -> ArtifactV {
        ArtifactV {
            id: self.id@,
            artifact_type: self.artifact_type,
            name: self.name@,
            path: self.path@,
            created_at: self.created_at,
            metadata: pairs_view(self.metadata@),
        }
    }
}

impl View for SessionState {
    type V = SessionStateV;

    open spec fn view(&self) -> SessionStateV {
        SessionStateV {
            id: self.id@,
            name: self.name@,
            status: self.status,
            mode: self.mode,
            created_at: self.created_at,
            updated_at: self.updated_at,
            task_queue: self.task_queue@.map_values(|t: Task| t@),
            approval_queue: self.approval_queue@.map_values(|a: ApprovalRequest| a@),
            agent_states: self.agent_states@,
            findings: self.findings@.map_values(|f: Finding| f@),
            artifacts: self.artifacts@.map_values(|a: Artifact| a@),
            metadata: pairs_view(self.metadata@),
        }
    }
}

// ---------------------------------------------------------------------------
// Specification of construction and mutation
// ---------------------------------------------------------------------------

pub open spec fn max_i64(a: i64, b: i64) -> i64 {
    if a >= b {
        a
    } else {
        b
    }
}

/// A freshly initialized agent record: idle, no task.
pub open spec fn agent_init(agent: AgentType, now: i64) -> AgentStatusV {
    AgentStatusV { agent, state: AgentState::Idle, current_task: Option::None, last_update: now }
}

/// All five agent kinds, idle.
pub open spec fn table_init(now: i64) -> AgentTableV {
    AgentTableV {
        planner: agent_init(AgentType::Planner, now),
        operator: agent_init(AgentType::Operator, now),
        navigator: agent_init(AgentType::Navigator, now),
        analyst: agent_init(AgentType::Analyst, now),
        scribe: agent_init(AgentType::Scribe, now),
    }
}

/// Each slot of the table records its own agent kind.
pub open spec fn table_wf(t: AgentTableV) -> bool {
    &&& t.planner.agent == AgentType::Planner
    &&& t.operator.agent == AgentType::Operator
    &&& t.navigator.agent == AgentType::Navigator
    &&& t.analyst.agent == AgentType::Analyst
    &&& t.scribe.agent == AgentType::Scribe
}

/// The record of the given agent kind.
pub open spec fn table_get(t: AgentTableV, a: AgentType) -> AgentStatusV {
    match a {
        AgentType::Planner => t.planner,
        AgentType::Operator => t.operator,
        AgentType::Navigator => t.navigator,
        AgentType::Analyst => t.analyst,
        AgentType::Scribe => t.scribe,
    }
}

/// The table with the given agent kind's record replaced.
pub open spec fn table_set(t: AgentTableV, a: AgentType, s: AgentStatusV) -> AgentTableV {
    match a {
        AgentType::Planner => AgentTableV { planner: s, ..t },
        AgentType::Operator => AgentTableV { operator: s, ..t },
        AgentType::Navigator => AgentTableV { navigator: s, ..t },
        AgentType::Analyst => AgentTableV { analyst: s, ..t },
        AgentType::Scribe => AgentTableV { scribe: s, ..t },
    }
}

/// A fully initialized session: active, empty queues, all agents idle,
/// creation and update instants equal.
pub open spec fn session_init(
    id: Seq<char>,
    name: Seq<char>,
    mode: OperationalMode,
    now: i64,
) -> SessionStateV {
    SessionStateV {
        id,
        name,
        status: SessionStatus::Active,
        mode,
        created_at: now,
        updated_at: now,
        task_queue: Seq::empty(),
        approval_queue: Seq::empty(),
        agent_states: table_init(now),
        findings: Seq::empty(),
        artifacts: Seq::empty(),
        metadata: Seq::empty(),
    }
}

/// The session with its update instant bumped to `now`; never moves
/// backwards, so `updated_at` is monotonically non-decreasing.
pub open spec fn touched(v: SessionStateV, now: i64) -> SessionStateV {
    SessionStateV { updated_at: max_i64(v.updated_at, now), ..v }
}

/// The task a queue operation appends.
pub open spec fn task_new(
    tool_name: Seq<char>,
    target: Seq<char>,
    args: Seq<(Seq<char>, Seq<char>)>,
    entropy: Seq<char>,
    index: nat,
    now: i64,
) -> TaskV {
    TaskV {
        id: id_chars("task_"@, entropy, index),
        tool_name,
        target,
        args,
        status: TaskStatus::Queued,
        created_at: now,
        started_at: Option::None,
        completed_at: Option::None,
    }
}

/// Appending a task to the tail of the queue, then touching the session.
pub open spec fn queue_task_spec(
    v: SessionStateV,
    tool_name: Seq<char>,
    target: Seq<char>,
    args: Seq<(Seq<char>, Seq<char>)>,
    entropy: Seq<char>,
    now: i64,
) -> SessionStateV {
    touched(
        SessionStateV {
            task_queue: v.task_queue.push(
                task_new(tool_name, target, args, entropy, v.task_queue.len(), now),
            ),
            ..v
        },
        now,
    )
}

/// The approval request a request operation appends.
pub open spec fn approval_new(
    action: ActionV,
    reason: Seq<char>,
    entropy: Seq<char>,
    index: nat,
    now: i64,
) -> ApprovalRequestV {
    ApprovalRequestV {
        id: id_chars("approval_"@, entropy, index),
        action,
        reason,
        created_at: now,
        status: ApprovalStatus::Pending,
    }
}

/// Appending a pending approval request, then touching the session.
pub open spec fn request_approval_spec(
    v: SessionStateV,
    action: ActionV,
    reason: Seq<char>,
    entropy: Seq<char>,
    now: i64,
) -> SessionStateV {
    touched(
        SessionStateV {
            approval_queue: v.approval_queue.push(
                approval_new(action, reason, entropy, v.approval_queue.len(), now),
            ),
            ..v
        },
        now,
    )
}

/// The finding a record operation appends.
pub open spec fn finding_new(
    title: Seq<char>,
    severity: Severity,
    description: Seq<char>,
    tool_source: Seq<char>,
    details: Seq<char>,
    entropy: Seq<char>,
    index: nat,
    now: i64,
) -> FindingV {
    FindingV {
        id: id_chars("finding_"@, entropy, index),
        title,
        severity,
        description,
        tool_source,
        discovered_at: now,
        details,
    }
}

/// Appending a finding, then touching the session.
pub open spec fn add_finding_spec(
    v: SessionStateV,
    title: Seq<char>,
    severity: Severity,
    description: Seq<char>,
    tool_source: Seq<char>,
    details: Seq<char>,
    entropy: Seq<char>,
    now: i64,
) -> SessionStateV {
    touched(
        SessionStateV {
            findings: v.findings.push(
                finding_new(
                    title,
                    severity,
                    description,
                    tool_source,
                    details,
                    entropy,
                    v.findings.len(),
                    now,
                ),
            ),
            ..v
        },
        now,
    )
}

/// The first index of the approval with the given id, or -1.
pub open spec fn find_approval(q: Seq<ApprovalRequestV>, id: Seq<char>) -> int
    decreases q.len(),
{
    if q.len() == 0 {
        -1
    } else if q[0].id == id {
        0
    } else {
        let r = find_approval(q.drop_first(), id);
        if r == -1 {
            -1
        } else {
            1 + r
        }
    }
}

pub proof fn lemma_find_approval(q: Seq<ApprovalRequestV>, id: Seq<char>)
    ensures
        find_approval(q, id) == -1 <==> (forall|i: int|
            0 <= i < q.len() ==> (#[trigger] q[i]).id != id),
        find_approval(q, id) != -1 ==> {
            let f = find_approval(q, id);
            &&& 0 <= f < q.len()
            &&& q[f].id == id
            &&& forall|j: int| 0 <= j < f ==> (#[trigger] q[j]).id != id
        },
    decreases q.len(),
{
    if q.len() == 0 {
    } else if q[0].id == id {
    } else {
        lemma_find_approval(q.drop_first(), id);
        let r = find_approval(q.drop_first(), id);
        assert forall|i: int| 0 <= i < q.len() && i >= 1 implies q[i] == q.drop_first()[i - 1] by {}
        if r != -1 {
            assert(q[r + 1].id == id);
        }
    }
}

/// Whether an approval with the given id exists and is still pending:
/// exactly the condition under which a resolution takes effect.
pub open spec fn resolve_transitions(v: SessionStateV, id: Seq<char>) -> bool {
    let f = find_approval(v.approval_queue, id);
    f != -1 && v.approval_queue[f].status == ApprovalStatus::Pending
}

/// Resolving an approval: the pending request with the given id becomes
/// approved or denied and the session is touched; in every other case —
/// no such id, or the request already resolved — the session is
/// unchanged. A transition is one-way: nothing else ever sets the status.
pub open spec fn resolve_approval_spec(
    v: SessionStateV,
    id: Seq<char>,
    approve: bool,
    now: i64,
) -> SessionStateV {
    if resolve_transitions(v, id) {
        let f = find_approval(v.approval_queue, id);
        let st = if approve {
            ApprovalStatus::Approved
        } else {
            ApprovalStatus::Denied
        };
        touched(
            SessionStateV {
                approval_queue: v.approval_queue.update(
                    f,
                    ApprovalRequestV { status: st, ..v.approval_queue[f] },
                ),
                ..v
            },
            now,
        )
    } else {
        v
    }
}

/// Replacing one agent kind's record: new state, new task reference,
/// fresh `last_update`; the session's own `updated_at` is not touched.
pub open spec fn update_agent_spec(
    v: SessionStateV,
    agent: AgentType,
    state: AgentState,
    current_task: Option<Seq<char>>,
    now: i64,
) -> SessionStateV {
    SessionStateV {
        agent_states: table_set(
            v.agent_states,
            agent,
            AgentStatusV { agent, state, current_task, last_update: now },
        ),
        ..v
    }
}

// ---------------------------------------------------------------------------
// Executable construction and mutation
// ---------------------------------------------------------------------------

fn agent_status_init(agent: AgentType, now: i64) -> (r: AgentStatus)
    ensures
        r@ == agent_init(agent, now),
{
    AgentStatus { agent, state: AgentState::Idle, current_task: Option::None, last_update: now }
}

impl SessionState {
    /// A fully initialized session under a caller-chosen id.
    pub fn new_with_id(id: String, name: String, mode: OperationalMode, now: i64) -> (s:
        SessionState)
        ensures
            s@ == session_init(id@, name@, mode, now),
    {
        let s = SessionState {
            id,
            name,
            status: SessionStatus::Active,
            mode,
            created_at: now,
            updated_at: now,
            task_queue: Vec::new(),
            approval_queue: Vec::new(),
            agent_states: AgentTable {
                planner: agent_status_init(AgentType::Planner, now),
                operator: agent_status_init(AgentType::Operator, now),
                navigator: agent_status_init(AgentType::Navigator, now),
                analyst: agent_status_init(AgentType::Analyst, now),
                scribe: agent_status_init(AgentType::Scribe, now),
            },
            findings: Vec::new(),
            artifacts: Vec::new(),
            metadata: Vec::new(),
        };
        proof {
            assert(s@ =~~= session_init(s.id@, s.name@, mode, now));
        }
        s
    }

    /// A new session named by a fresh random id, created now. All five
    /// agent records exist and are idle, the queues are empty, and the
    /// creation and update instants are equal.
    pub fn new(name: String, mode: OperationalMode) -> (s: SessionState)
        ensures
            exists|id: Seq<char>, now: i64| s@ == session_init(id, name@, mode, now),
            s@.name == name@,
            s@.mode == mode,
            s@.status == SessionStatus::Active,
            s@.created_at == s@.updated_at,
            table_wf(s@.agent_states),
            s@.task_queue.len() == 0,
            s@.approval_queue.len() == 0,
    {
        let now = now_millis();
        let entropy = fresh_entropy();
        let part = entropy.as_str().substring_char(0, 12);
        let mut id = String::new();
        id.append("session_");
        id.append(part);
        let s = Self::new_with_id(id, name, mode, now);
        proof {
            assert(s@ == session_init(s@.id, name@, mode, now));
        }
        s
    }

    /// Bumps the update instant to the given instant; never backwards.
    pub fn touch_at(&mut self, now: i64)
        ensures
            final(self)@ == touched(old(self)@, now),
    {
        if now > self.updated_at {
            self.updated_at = now;
        }
        proof {
            assert(self@ =~~= touched(old(self)@, now));
        }
    }

    /// Bumps the update instant to the current instant.
    pub fn touch(&mut self)
        ensures
            exists|now: i64| final(self)@ == touched(old(self)@, now),
            final(self)@.updated_at >= old(self)@.updated_at,
    {
        let now = now_millis();
        self.touch_at(now);
        proof {
            assert(self@ == touched(old(self)@, now));
        }
    }

    /// Appends a freshly built task to the tail of the queue and touches
    /// the session. Deterministic core: instant and entropy are arguments.
    pub fn queue_task_at(
        &mut self,
        tool_name: String,
        target: String,
        args: Vec<(String, String)>,
        entropy: &str,
        now: i64,
    )
        ensures
            final(self)@ == queue_task_spec(
                old(self)@,
                tool_name@,
                target@,
                pairs_view(args@),
                entropy@,
                now,
            ),
    {
        let serial = self.task_queue.len() as u64;
        let id = make_id("task_", entropy, serial);
        let task = Task {
            id,
            tool_name,
            target,
            args,
            status: TaskStatus::Queued,
            created_at: now,
            started_at: Option::None,
            completed_at: Option::None,
        };
        self.task_queue.push(task);
        self.touch_at(now);
        proof {
            assert(self@.task_queue =~= old(self)@.task_queue.push(
                task_new(
                    tool_name@,
                    target@,
                    pairs_view(args@),
                    entropy@,
                    old(self)@.task_queue.len(),
                    now,
                ),
            ));
            assert(self@ =~~= queue_task_spec(
                old(self)@,
                tool_name@,
                target@,
                pairs_view(args@),
                entropy@,
                now,
            ));
        }
    }

    /// Appends a freshly built task now, with fresh entropy.
    pub fn queue_task(&mut self, tool_name: String, target: String, args: Vec<(String, String)>)
        ensures
            exists|entropy: Seq<char>, now: i64|
                final(self)@ == queue_task_spec(
                    old(self)@,
                    tool_name@,
                    target@,
                    pairs_view(args@),
                    entropy,
                    now,
                ),
            final(self)@.task_queue.len() == old(self)@.task_queue.len() + 1,
            final(self)@.task_queue.last().tool_name == tool_name@,
            final(self)@.task_queue.last().target == target@,
            final(self)@.task_queue.last().args == pairs_view(args@),
            final(self)@.task_queue.last().status == TaskStatus::Queued,
            final(self)@.updated_at >= old(self)@.updated_at,
    {
        let now = now_millis();
        let entropy = fresh_entropy();
        let part = entropy.as_str().substring_char(0, 8);
        self.queue_task_at(tool_name, target, args, part, now);
    }

    /// Appends a pending approval request and returns its id.
    /// Deterministic core: instant and entropy are arguments.
    pub fn request_approval_at(&mut self, action: Action, reason: String, entropy: &str, now: i64)
        -> (id: String)
        ensures
            final(self)@ == request_approval_spec(old(self)@, action@, reason@, entropy@, now),
            id@ == id_chars("approval_"@, entropy@, old(self)@.approval_queue.len()),
    {
        let serial = self.approval_queue.len() as u64;
        let id = make_id("approval_", entropy, serial);
        let id_out = id.clone();
        proof {
            assert(id_out@ == id@);
        }
        let approval = ApprovalRequest {
            id,
            action,
            reason,
            created_at: now,
            status: ApprovalStatus::Pending,
        };
        self.approval_queue.push(approval);
        self.touch_at(now);
        proof {
            assert(self@.approval_queue =~= old(self)@.approval_queue.push(
                approval_new(action@, reason@, entropy@, old(self)@.approval_queue.len(), now),
            ));
            assert(self@ =~~= request_approval_spec(old(self)@, action@, reason@, entropy@, now));
        }
        id_out
    }

    /// Appends a pending approval request now, with fresh entropy.
    pub fn request_approval(&mut self, action: Action, reason: String) -> (id: String)
        ensures
            exists|entropy: Seq<char>, now: i64|
                final(self)@ == request_approval_spec(old(self)@, action@, reason@, entropy, now),
            final(self)@.approval_queue.len() == old(self)@.approval_queue.len() + 1,
            final(self)@.approval_queue.last().id == id@,
            final(self)@.approval_queue.last().status == ApprovalStatus::Pending,
            final(self)@.approval_queue.last().action == action@,
            final(self)@.approval_queue.last().reason == reason@,
            final(self)@.updated_at >= old(self)@.updated_at,
    {
        let now = now_millis();
        let entropy = fresh_entropy();
        let part = entropy.as_str().substring_char(0, 8);
        self.request_approval_at(action, reason, part, now)
    }

    /// Appends a finding. Deterministic core.
    pub fn add_finding_at(
        &mut self,
        title: String,
        severity: Severity,
        description: String,
        tool_source: String,
        details: String,
        entropy: &str,
        now: i64,
    )
        ensures
            final(self)@ == add_finding_spec(
                old(self)@,
                title@,
                severity,
                description@,
                tool_source@,
                details@,
                entropy@,
                now,
            ),
    {
        let serial = self.findings.len() as u64;
        let id = make_id("finding_", entropy, serial);
        let finding = Finding {
            id,
            title,
            severity,
            description,
            tool_source,
            discovered_at: now,
            details,
        };
        self.findings.push(finding);
        self.touch_at(now);
        proof {
            assert(self@.findings =~= old(self)@.findings.push(
                finding_new(
                    title@,
                    severity,
                    description@,
                    tool_source@,
                    details@,
                    entropy@,
                    old(self)@.findings.len(),
                    now,
                ),
            ));
            assert(self@ =~~= add_finding_spec(
                old(self)@,
                title@,
                severity,
                description@,
                tool_source@,
                details@,
                entropy@,
                now,
            ));
        }
    }

    /// Appends a finding now, with fresh entropy.
    pub fn add_finding(
        &mut self,
        title: String,
        severity: Severity,
        description: String,
        tool_source: String,
        details: String,
    )
        ensures
            exists|entropy: Seq<char>, now: i64|
                final(self)@ == add_finding_spec(
                    old(self)@,
                    title@,
                    severity,
                    description@,
                    tool_source@,
                    details@,
                    entropy,
                    now,
                ),
            final(self)@.findings.len() == old(self)@.findings.len() + 1,
            final(self)@.findings.last().title == title@,
            final(self)@.findings.last().severity == severity,
            final(self)@.updated_at >= old(self)@.updated_at,
    {
        let now = now_millis();
        let entropy = fresh_entropy();
        let part = entropy.as_str().substring_char(0, 8);
        self.add_finding_at(title, severity, description, tool_source, details, part, now);
    }

    /// Resolves the pending approval with the given id to approved or
    /// denied. Returns whether a transition happened; when it did not —
    /// unknown id, or the request was already resolved — the session is
    /// left exactly as it was, so a second resolution of the same id is
    /// always rejected without effect.
    pub fn resolve_approval_at(&mut self, approval_id: &str, approve: bool, now: i64) -> (r: bool)
        ensures
            final(self)@ == resolve_approval_spec(old(self)@, approval_id@, approve, now),
            r == resolve_transitions(old(self)@, approval_id@),
    {
        proof {
            lemma_find_approval(old(self)@.approval_queue, approval_id@);
        }
        let key: String = approval_id.to_owned();
        let n = self.approval_queue.len();
        let mut i: usize = 0;
        while i < n
            invariant
                *self == *old(self),
                n == self.approval_queue.len(),
                i <= n,
                forall|j: int| 0 <= j < i ==> (#[trigger] self@.approval_queue[j]).id != key@,
                key@ == approval_id@,
            decreases n - i,
        {
            if self.approval_queue[i].id == key {
                proof {
                    let q = old(self)@.approval_queue;
                    lemma_find_approval(q, approval_id@);
                    let f = find_approval(q, approval_id@);
                    assert(self@.approval_queue[i as int] == q[i as int]);
                    assert(q[i as int].id == approval_id@);
                    if f == -1 {
                        assert(q[i as int].id != approval_id@);
                        assert(false);
                    }
                    if f < i {
                        assert(self@.approval_queue[f] == q[f]);
                        assert(self@.approval_queue[f].id != key@);
                        assert(q[f].id == approval_id@);
                        assert(false);
                    }
                    if f > i {
                        assert(q[i as int].id != approval_id@);
                        assert(false);
                    }
                    assert(f == i);
                }
                let pending = match self.approval_queue[i].status {
                    ApprovalStatus::Pending => true,
                    _ => false,
                };
                if pending {
                    let prior = self.approval_queue.remove(i);
                    let st = if approve {
                        ApprovalStatus::Approved
                    } else {
                        ApprovalStatus::Denied
                    };
                    let updated = ApprovalRequest { status: st, ..prior };
                    self.approval_queue.insert(i, updated);
                    self.touch_at(now);
                    proof {
                        assert(self@.approval_queue =~= old(self)@.approval_queue.update(
                            i as int,
                            ApprovalRequestV {
                                status: st,
                                ..old(self)@.approval_queue[i as int]
                            },
                        ));
                        assert(self@ =~~= resolve_approval_spec(
                            old(self)@,
                            approval_id@,
                            approve,
                            now,
                        ));
                    }
                    return true;
                } else {
                    proof {
                        assert(!resolve_transitions(old(self)@, approval_id@));
                    }
                    return false;
                }
            }
            i = i + 1;
        }
        proof {
            assert(find_approval(old(self)@.approval_queue, approval_id@) == -1);
        }
        false
    }

    /// Resolves the pending approval with the given id, stamped now.
    pub fn resolve_approval(&mut self, approval_id: &str, approve: bool) -> (r: bool)
        ensures
            exists|now: i64|
                final(self)@ == resolve_approval_spec(old(self)@, approval_id@, approve, now),
            r == resolve_transitions(old(self)@, approval_id@),
    {
        let now = now_millis();
        self.resolve_approval_at(approval_id, approve, now)
    }

    /// Replaces the record of one agent kind: new state, new current
    /// task, fresh `last_update`. Deterministic core.
    pub fn update_agent_at(
        &mut self,
        agent: AgentType,
        state: AgentState,
        current_task: Option<String>,
        now: i64,
    )
        ensures
            final(self)@ == update_agent_spec(
                old(self)@,
                agent,
                state,
                opt_str_view(current_task),
                now,
            ),
    {
        let status = AgentStatus { agent, state, current_task, last_update: now };
        match agent {
            AgentType::Planner => {
                self.agent_states.planner = status;
            },
            AgentType::Operator => {
                self.agent_states.operator = status;
            },
            AgentType::Navigator => {
                self.agent_states.navigator = status;
            },
            AgentType::Analyst => {
                self.agent_states.analyst = status;
            },
            AgentType::Scribe => {
                self.agent_states.scribe = status;
            },
        }
        proof {
            assert(self@ =~~= update_agent_spec(
                old(self)@,
                agent,
                state,
                opt_str_view(current_task),
                now,
            ));
        }
    }
}

// ---------------------------------------------------------------------------
// Identifier uniqueness within a session
// ---------------------------------------------------------------------------

/// Each identifier in the sequence is `<prefix><entropy>_<position>`
/// for some entropy of the given width.
pub open spec fn ids_shaped(ids: Seq<Seq<char>>, prefix: Seq<char>, width: nat) -> bool {
    forall|i: int|
        0 <= i < ids.len() ==> exists|u: Seq<char>|
            u.len() == width && #[trigger] ids[i] == id_chars(prefix, u, i as nat)
}

/// Shaped identifier sequences have pairwise distinct entries.
pub proof fn lemma_shaped_ids_distinct(ids: Seq<Seq<char>>, prefix: Seq<char>, width: nat)
    requires
        ids_shaped(ids, prefix, width),
    ensures
        forall|i: int, j: int|
            0 <= i < ids.len() && 0 <= j < ids.len() && i != j ==> ids[i] != ids[j],
{
    assert forall|i: int, j: int|
        0 <= i < ids.len() && 0 <= j < ids.len() && i != j implies ids[i] != ids[j] by {
        let u1 = choose|u: Seq<char>| u.len() == width && ids[i] == id_chars(prefix, u, i as nat);
        let u2 = choose|u: Seq<char>| u.len() == width && ids[j] == id_chars(prefix, u, j as nat);
        if ids[i] == ids[j] {
            lemma_id_serial_injective(prefix, u1, i as nat, u2, j as nat);
        }
    }
}

/// Appending an entry whose serial is the current length keeps the
/// sequence shaped.
pub proof fn lemma_shaped_ids_push(
    ids: Seq<Seq<char>>,
    prefix: Seq<char>,
    width: nat,
    u: Seq<char>,
)
    requires
        ids_shaped(ids, prefix, width),
        u.len() == width,
    ensures
        ids_shaped(ids.push(id_chars(prefix, u, ids.len())), prefix, width),
{
    let ids2 = ids.push(id_chars(prefix, u, ids.len()));
    assert forall|i: int| 0 <= i < ids2.len() implies exists|w: Seq<char>|
        w.len() == width && #[trigger] ids2[i] == id_chars(prefix, w, i as nat) by {
        if i < ids.len() {
            assert(ids2[i] == ids[i]);
        } else {
            assert(ids2[i] == id_chars(prefix, u, i as nat));
        }
    }
}

/// Queueing on a session with some number of tasks yields one more task,
/// the new task exactly at the tail, every earlier task unchanged, and an
/// update instant that never moves backwards — strictly forward whenever
/// the instant is later than the session's last update.
pub proof fn lemma_queue_task_growth(
    v: SessionStateV,
    tool_name: Seq<char>,
    target: Seq<char>,
    args: Seq<(Seq<char>, Seq<char>)>,
    entropy: Seq<char>,
    now: i64,
)
    ensures
        ({
            let v2 = queue_task_spec(v, tool_name, target, args, entropy, now);
            &&& v2.task_queue.len() == v.task_queue.len() + 1
            &&& v2.task_queue.last() == task_new(
                tool_name,
                target,
                args,
                entropy,
                v.task_queue.len(),
                now,
            )
            &&& forall|i: int|
                0 <= i < v.task_queue.len() ==> v2.task_queue[i] == #[trigger] v.task_queue[i]
            &&& v2.updated_at >= v.updated_at
            &&& now > v.updated_at ==> v2.updated_at > v.updated_at
        }),
{
}

/// An approval transition is terminal and one-way: after a pending
/// request is resolved — to approved or to denied — a second resolution
/// of the same id is rejected and leaves the session exactly as it was.
pub proof fn lemma_resolve_approval_terminal(
    v: SessionStateV,
    id: Seq<char>,
    approve1: bool,
    now1: i64,
    approve2: bool,
    now2: i64,
)
    requires
        resolve_transitions(v, id),
    ensures
        ({
            let v2 = resolve_approval_spec(v, id, approve1, now1);
            &&& !resolve_transitions(v2, id)
            &&& resolve_approval_spec(v2, id, approve2, now2) == v2
        }),
{
    lemma_find_approval(v.approval_queue, id);
    let f = find_approval(v.approval_queue, id);
    let v2 = resolve_approval_spec(v, id, approve1, now1);
    lemma_find_approval(v2.approval_queue, id);
    let f2 = find_approval(v2.approval_queue, id);
    assert(v2.approval_queue.len() == v.approval_queue.len());
    assert(v2.approval_queue[f].id == id);
    assert(f2 != -1);
    if f2 < f {
        assert(v2.approval_queue[f2] == v.approval_queue[f2]);
        assert(v.approval_queue[f2].id != id);
        assert(false);
    }
    if f2 > f {
        assert(v2.approval_queue[f].id != id);
        assert(false);
    }
    assert(f2 == f);
    assert(v2.approval_queue[f2].status != ApprovalStatus::Pending);
}

/// The task identifiers of a session.
pub open spec fn task_ids(v: SessionStateV) -> Seq<Seq<char>> {
    v.task_queue.map_values(|t: TaskV| t.id)
}

/// The approval identifiers of a session.
pub open spec fn approval_ids(v: SessionStateV) -> Seq<Seq<char>> {
    v.approval_queue.map_values(|a: ApprovalRequestV| a.id)
}

/// The finding identifiers of a session.
pub open spec fn finding_ids(v: SessionStateV) -> Seq<Seq<char>> {
    v.findings.map_values(|f: FindingV| f.id)
}

/// The identifier discipline of the data model: every item id encodes
/// its position, which makes ids unique within their collection.
pub open spec fn session_ids_shaped(v: SessionStateV) -> bool {
    &&& ids_shaped(task_ids(v), "task_"@, 8)
    &&& ids_shaped(approval_ids(v), "approval_"@, 8)
    &&& ids_shaped(finding_ids(v), "finding_"@, 8)
}

/// A fresh session satisfies the identifier discipline.
pub proof fn lemma_init_ids_shaped(id: Seq<char>, name: Seq<char>, mode: OperationalMode, now: i64)
    ensures
        session_ids_shaped(session_init(id, name, mode, now)),
{
    let v = session_init(id, name, mode, now);
    assert(task_ids(v) =~= Seq::<Seq<char>>::empty());
    assert(approval_ids(v) =~= Seq::<Seq<char>>::empty());
    assert(finding_ids(v) =~= Seq::<Seq<char>>::empty());
}

/// Queueing a task preserves the identifier discipline.
pub proof fn lemma_queue_task_ids_shaped(
    v: SessionStateV,
    tool_name: Seq<char>,
    target: Seq<char>,
    args: Seq<(Seq<char>, Seq<char>)>,
    entropy: Seq<char>,
    now: i64,
)
    requires
        session_ids_shaped(v),
        entropy.len() == 8,
    ensures
        session_ids_shaped(queue_task_spec(v, tool_name, target, args, entropy, now)),
{
    let v2 = queue_task_spec(v, tool_name, target, args, entropy, now);
    lemma_shaped_ids_push(task_ids(v), "task_"@, 8, entropy);
    assert(task_ids(v2) =~= task_ids(v).push(
        id_chars("task_"@, entropy, task_ids(v).len()),
    ));
    assert(approval_ids(v2) =~= approval_ids(v));
    assert(finding_ids(v2) =~= finding_ids(v));
}

/// Requesting an approval preserves the identifier discipline.
pub proof fn lemma_request_approval_ids_shaped(
    v: SessionStateV,
    action: ActionV,
    reason: Seq<char>,
    entropy: Seq<char>,
    now: i64,
)
    requires
        session_ids_shaped(v),
        entropy.len() == 8,
    ensures
        session_ids_shaped(request_approval_spec(v, action, reason, entropy, now)),
{
    let v2 = request_approval_spec(v, action, reason, entropy, now);
    lemma_shaped_ids_push(approval_ids(v), "approval_"@, 8, entropy);
    assert(approval_ids(v2) =~= approval_ids(v).push(
        id_chars("approval_"@, entropy, approval_ids(v).len()),
    ));
    assert(task_ids(v2) =~= task_ids(v));
    assert(finding_ids(v2) =~= finding_ids(v));
}

/// Recording a finding preserves the identifier discipline.
pub proof fn lemma_add_finding_ids_shaped(
    v: SessionStateV,
    title: Seq<char>,
    severity: Severity,
    description: Seq<char>,
    tool_source: Seq<char>,
    details: Seq<char>,
    entropy: Seq<char>,
    now: i64,
)
    requires
        session_ids_shaped(v),
        entropy.len() == 8,
    ensures
        session_ids_shaped(
            add_finding_spec(v, title, severity, description, tool_source, details, entropy, now),
        ),
{
    let v2 = add_finding_spec(
        v,
        title,
        severity,
        description,
        tool_source,
        details,
        entropy,
        now,
    );
    lemma_shaped_ids_push(finding_ids(v), "finding_"@, 8, entropy);
    assert(finding_ids(v2) =~= finding_ids(v).push(
        id_chars("finding_"@, entropy, finding_ids(v).len()),
    ));
    assert(task_ids(v2) =~= task_ids(v));
    assert(approval_ids(v2) =~= approval_ids(v));
}

} // verus!
