//! The durable session file format, above the token layer: how a session
//! envelope maps to a token stream and back. Reading the tokens written
//! for any well-formed envelope gives the envelope back, which is proved
//! here and carries the load/save round trip.
use vstd::prelude::*;

use crate::codec::{Token, TokenV, tok_wf, toks_wf, toks_view, lemma_toks_view_snoc, encode_tokens, decode_tokens};
use crate::errors::CoreError;
use crate::state::{
    OperationalMode, SessionStatus, AgentType, AgentState, TaskStatus, ActionType, RiskLevel,
    ApprovalStatus, Severity, ArtifactType, AgentStatusV, AgentTableV, TaskV, ActionV,
    ApprovalRequestV, FindingV, ArtifactV, SessionStateV, AgentStatus, Task, Action,
    ApprovalRequest, Finding, Artifact, SessionState, AgentTable,
};

verus! {

// ---------------------------------------------------------------------------
// Scalars
// ---------------------------------------------------------------------------

/// A signed instant shifted into the unsigned range, so it can ride in a
/// number token.
pub open spec fn i64_to_off(n: i64) -> u64 {
    (n as int + 0x8000_0000_0000_0000) as u64
}

/// The inverse shift.
pub open spec fn off_to_i64(u: u64) -> i64 {
    (u as int - 0x8000_0000_0000_0000) as i64
}

pub proof fn lemma_off_round_trip(n: i64)
    ensures
        off_to_i64(i64_to_off(n)) == n,
{
}

pub open spec fn mode_tag(m: OperationalMode) -> u64 {
    match m {
        OperationalMode::Offensive => 0,
        OperationalMode::Defensive => 1,
    }
}

pub open spec fn mode_of_tag(t: u64) -> Option<OperationalMode> {
    if t == 0 {
        Option::Some(OperationalMode::Offensive)
    } else if t == 1 {
        Option::Some(OperationalMode::Defensive)
    } else {
        Option::None
    }
}

pub open spec fn status_tag(s: SessionStatus) -> u64 {
    match s {
        SessionStatus::Active => 0,
        SessionStatus::Paused => 1,
        SessionStatus::Completed => 2,
        SessionStatus::Failed => 3,
    }
}

pub open spec fn status_of_tag(t: u64) -> Option<SessionStatus> {
    if t == 0 {
        Option::Some(SessionStatus::Active)
    } else if t == 1 {
        Option::Some(SessionStatus::Paused)
    } else if t == 2 {
        Option::Some(SessionStatus::Completed)
    } else if t == 3 {
        Option::Some(SessionStatus::Failed)
    } else {
        Option::None
    }
}

pub open spec fn agent_tag(a: AgentType) -> u64 {
    match a {
        AgentType::Planner => 0,
        AgentType::Operator => 1,
        AgentType::Navigator => 2,
        AgentType::Analyst => 3,
        AgentType::Scribe => 4,
    }
}

pub open spec fn agent_of_tag(t: u64) -> Option<AgentType> {
    if t == 0 {
        Option::Some(AgentType::Planner)
    } else if t == 1 {
        Option::Some(AgentType::Operator)
    } else if t == 2 {
        Option::Some(AgentType::Navigator)
    } else if t == 3 {
        Option::Some(AgentType::Analyst)
    } else if t == 4 {
        Option::Some(AgentType::Scribe)
    } else {
        Option::None
    }
}

pub open spec fn astate_tag(s: AgentState) -> u64 {
    match s {
        AgentState::Idle => 0,
        AgentState::Planning => 1,
        AgentState::Executing => 2,
        AgentState::Analyzing => 3,
        AgentState::Writing => 4,
        AgentState::WaitingApproval => 5,
        AgentState::Error => 6,
    }
}

pub open spec fn astate_of_tag(t: u64) -> Option<AgentState> {
    if t == 0 {
        Option::Some(AgentState::Idle)
    } else if t == 1 {
        Option::Some(AgentState::Planning)
    } else if t == 2 {
        Option::Some(AgentState::Executing)
    } else if t == 3 {
        Option::Some(AgentState::Analyzing)
    } else if t == 4 {
        Option::Some(AgentState::Writing)
    } else if t == 5 {
        Option::Some(AgentState::WaitingApproval)
    } else if t == 6 {
        Option::Some(AgentState::Error)
    } else {
        Option::None
    }
}

pub open spec fn tstatus_tag(s: TaskStatus) -> u64 {
    match s {
        TaskStatus::Queued => 0,
        TaskStatus::Running => 1,
        TaskStatus::Completed => 2,
        TaskStatus::Failed => 3,
        TaskStatus::Cancelled => 4,
    }
}

pub open spec fn tstatus_of_tag(t: u64) -> Option<TaskStatus> {
    if t == 0 {
        Option::Some(TaskStatus::Queued)
    } else if t == 1 {
        Option::Some(TaskStatus::Running)
    } else if t == 2 {
        Option::Some(TaskStatus::Completed)
    } else if t == 3 {
        Option::Some(TaskStatus::Failed)
    } else if t == 4 {
        Option::Some(TaskStatus::Cancelled)
    } else {
        Option::None
    }
}

pub open spec fn atype_tag(a: ActionType) -> u64 {
    match a {
        ActionType::ToolExecution => 0,
        ActionType::BrowserNavigation => 1,
        ActionType::FormSubmission => 2,
        ActionType::FileWrite => 3,
        ActionType::RootCommand => 4,
    }
}

pub open spec fn atype_of_tag(t: u64) -> Option<ActionType> {
    if t == 0 {
        Option::Some(ActionType::ToolExecution)
    } else if t == 1 {
        Option::Some(ActionType::BrowserNavigation)
    } else if t == 2 {
        Option::Some(ActionType::FormSubmission)
    } else if t == 3 {
        Option::Some(ActionType::FileWrite)
    } else if t == 4 {
        Option::Some(ActionType::RootCommand)
    } else {
        Option::None
    }
}

pub open spec fn risk_tag(r: RiskLevel) -> u64 {
    r.rank_spec()
}

pub open spec fn risk_of_tag(t: u64) -> Option<RiskLevel> {
    if t == 0 {
        Option::Some(RiskLevel::Low)
    } else if t == 1 {
        Option::Some(RiskLevel::Medium)
    } else if t == 2 {
        Option::Some(RiskLevel::High)
    } else if t == 3 {
        Option::Some(RiskLevel::Critical)
    } else {
        Option::None
    }
}

pub open spec fn approval_tag(s: ApprovalStatus) -> u64 {
    match s {
        ApprovalStatus::Pending => 0,
        ApprovalStatus::Approved => 1,
        ApprovalStatus::Denied => 2,
    }
}

pub open spec fn approval_of_tag(t: u64) -> Option<ApprovalStatus> {
    if t == 0 {
        Option::Some(ApprovalStatus::Pending)
    } else if t == 1 {
        Option::Some(ApprovalStatus::Approved)
    } else if t == 2 {
        Option::Some(ApprovalStatus::Denied)
    } else {
        Option::None
    }
}

pub open spec fn severity_tag(s: Severity) -> u64 {
    s.rank_spec()
}

pub open spec fn severity_of_tag(t: u64) -> Option<Severity> {
    if t == 0 {
        Option::Some(Severity::Info)
    } else if t == 1 {
        Option::Some(Severity::Low)
    } else if t == 2 {
        Option::Some(Severity::Medium)
    } else if t == 3 {
        Option::Some(Severity::High)
    } else if t == 4 {
        Option::Some(Severity::Critical)
    } else {
        Option::None
    }
}

pub open spec fn arttype_tag(a: ArtifactType) -> u64 {
    match a {
        ArtifactType::Report => 0,
        ArtifactType::Screenshot => 1,
        ArtifactType::Log => 2,
        ArtifactType::Data => 3,
        ArtifactType::Other => 4,
    }
}

pub open spec fn arttype_of_tag(t: u64) -> Option<ArtifactType> {
    if t == 0 {
        Option::Some(ArtifactType::Report)
    } else if t == 1 {
        Option::Some(ArtifactType::Screenshot)
    } else if t == 2 {
        Option::Some(ArtifactType::Log)
    } else if t == 3 {
        Option::Some(ArtifactType::Data)
    } else if t == 4 {
        Option::Some(ArtifactType::Other)
    } else {
        Option::None
    }
}

// ---------------------------------------------------------------------------
// Writers: values to token streams
// ---------------------------------------------------------------------------

pub open spec fn opt_str_toks(o: Option<Seq<char>>) -> Seq<TokenV> {
    match o {
        Option::None => seq![TokenV::U(0)],
        Option::Some(s) => seq![TokenV::U(1), TokenV::S(s)],
    }
}

pub open spec fn opt_i64_toks(o: Option<i64>) -> Seq<TokenV> {
    match o {
        Option::None => seq![TokenV::U(0)],
        Option::Some(n) => seq![TokenV::U(1), TokenV::U(i64_to_off(n))],
    }
}

pub open spec fn pairs_body_toks(ps: Seq<(Seq<char>, Seq<char>)>) -> Seq<TokenV>
    decreases ps.len(),
{
    if ps.len() == 0 {
        Seq::empty()
    } else {
        seq![TokenV::S(ps[0].0), TokenV::S(ps[0].1)] + pairs_body_toks(ps.drop_first())
    }
}

pub open spec fn pairs_toks(ps: Seq<(Seq<char>, Seq<char>)>) -> Seq<TokenV> {
    seq![TokenV::U(ps.len() as u64)] + pairs_body_toks(ps)
}

pub open spec fn agent_toks(a: AgentStatusV) -> Seq<TokenV> {
    seq![TokenV::U(agent_tag(a.agent)), TokenV::U(astate_tag(a.state))] + opt_str_toks(
        a.current_task,
    ) + seq![TokenV::U(i64_to_off(a.last_update))]
}

pub open spec fn table_toks(t: AgentTableV) -> Seq<TokenV> {
    agent_toks(t.planner) + agent_toks(t.operator) + agent_toks(t.navigator) + agent_toks(
        t.analyst,
    ) + agent_toks(t.scribe)
}

pub open spec fn task_toks(t: TaskV) -> Seq<TokenV> {
    seq![TokenV::S(t.id), TokenV::S(t.tool_name), TokenV::S(t.target)] + pairs_toks(t.args)
        + seq![TokenV::U(tstatus_tag(t.status)), TokenV::U(i64_to_off(t.created_at))]
        + opt_i64_toks(t.started_at) + opt_i64_toks(t.completed_at)
}

pub open spec fn tasks_body_toks(ts: Seq<TaskV>) -> Seq<TokenV>
    decreases ts.len(),
{
    if ts.len() == 0 {
        Seq::empty()
    } else {
        task_toks(ts[0]) + tasks_body_toks(ts.drop_first())
    }
}

pub open spec fn tasks_toks(ts: Seq<TaskV>) -> Seq<TokenV> {
    seq![TokenV::U(ts.len() as u64)] + tasks_body_toks(ts)
}

pub open spec fn action_toks(a: ActionV) -> Seq<TokenV> {
    seq![
        TokenV::U(atype_tag(a.action_type)),
        TokenV::S(a.description),
        TokenV::U(risk_tag(a.risk_level)),
        TokenV::S(a.details),
    ]
}

pub open spec fn approval_toks(a: ApprovalRequestV) -> Seq<TokenV> {
    seq![TokenV::S(a.id)] + action_toks(a.action) + seq![
        TokenV::S(a.reason),
        TokenV::U(i64_to_off(a.created_at)),
        TokenV::U(approval_tag(a.status)),
    ]
}

pub open spec fn approvals_body_toks(qs: Seq<ApprovalRequestV>) -> Seq<TokenV>
    decreases qs.len(),
{
    if qs.len() == 0 {
        Seq::empty()
    } else {
        approval_toks(qs[0]) + approvals_body_toks(qs.drop_first())
    }
}

pub open spec fn approvals_toks(qs: Seq<ApprovalRequestV>) -> Seq<TokenV> {
    seq![TokenV::U(qs.len() as u64)] + approvals_body_toks(qs)
}

pub open spec fn finding_toks(f: FindingV) -> Seq<TokenV> {
    seq![
        TokenV::S(f.id),
        TokenV::S(f.title),
        TokenV::U(severity_tag(f.severity)),
        TokenV::S(f.description),
        TokenV::S(f.tool_source),
        TokenV::U(i64_to_off(f.discovered_at)),
        TokenV::S(f.details),
    ]
}

pub open spec fn findings_body_toks(fs: Seq<FindingV>) -> Seq<TokenV>
    decreases fs.len(),
{
    if fs.len() == 0 {
        Seq::empty()
    } else {
        finding_toks(fs[0]) + findings_body_toks(fs.drop_first())
    }
}

pub open spec fn findings_toks(fs: Seq<FindingV>) -> Seq<TokenV> {
    seq![TokenV::U(fs.len() as u64)] + findings_body_toks(fs)
}

pub open spec fn artifact_toks(a: ArtifactV) -> Seq<TokenV> {
    seq![
        TokenV::S(a.id),
        TokenV::U(arttype_tag(a.artifact_type)),
        TokenV::S(a.name),
        TokenV::S(a.path),
        TokenV::U(i64_to_off(a.created_at)),
    ] + pairs_toks(a.metadata)
}

pub open spec fn artifacts_body_toks(arts: Seq<ArtifactV>) -> Seq<TokenV>
    decreases arts.len(),
{
    if arts.len() == 0 {
        Seq::empty()
    } else {
        artifact_toks(arts[0]) + artifacts_body_toks(arts.drop_first())
    }
}

pub open spec fn artifacts_toks(arts: Seq<ArtifactV>) -> Seq<TokenV> {
    seq![TokenV::U(arts.len() as u64)] + artifacts_body_toks(arts)
}

pub open spec fn session_head_toks(s: SessionStateV) -> Seq<TokenV> {
    seq![
        TokenV::S(s.id),
        TokenV::S(s.name),
        TokenV::U(status_tag(s.status)),
        TokenV::U(mode_tag(s.mode)),
        TokenV::U(i64_to_off(s.created_at)),
        TokenV::U(i64_to_off(s.updated_at)),
    ]
}

pub open spec fn session_tail_toks(s: SessionStateV) -> Seq<TokenV> {
    tasks_toks(s.task_queue) + approvals_toks(s.approval_queue) + table_toks(s.agent_states)
        + findings_toks(s.findings) + artifacts_toks(s.artifacts) + pairs_toks(s.metadata)
}

pub open spec fn session_toks(s: SessionStateV) -> Seq<TokenV> {
    session_head_toks(s) + session_tail_toks(s)
}

/// The envelope written to disk: format version, snapshot, save instant.
pub open spec fn file_toks(version: Seq<char>, session: SessionStateV, saved_at: i64) -> Seq<
    TokenV,
> {
    seq![TokenV::S(version)] + session_toks(session) + seq![TokenV::U(i64_to_off(saved_at))]
}

// ---------------------------------------------------------------------------
// Well-formedness: every count and string length fits its token
// ---------------------------------------------------------------------------

pub open spec fn str_ok(s: Seq<char>) -> bool {
    s.len() <= u64::MAX
}

pub open spec fn pairs_wf(ps: Seq<(Seq<char>, Seq<char>)>) -> bool {
    &&& ps.len() <= u64::MAX
    &&& forall|i: int| 0 <= i < ps.len() ==> str_ok((#[trigger] ps[i]).0) && str_ok(ps[i].1)
}

pub open spec fn agent_wf(a: AgentStatusV) -> bool {
    match a.current_task {
        Option::Some(s) => str_ok(s),
        Option::None => true,
    }
}

pub open spec fn table_v_wf(t: AgentTableV) -> bool {
    &&& agent_wf(t.planner)
    &&& agent_wf(t.operator)
    &&& agent_wf(t.navigator)
    &&& agent_wf(t.analyst)
    &&& agent_wf(t.scribe)
}

pub open spec fn task_wf(t: TaskV) -> bool {
    &&& str_ok(t.id)
    &&& str_ok(t.tool_name)
    &&& str_ok(t.target)
    &&& pairs_wf(t.args)
}

pub open spec fn tasks_wf(ts: Seq<TaskV>) -> bool {
    &&& ts.len() <= u64::MAX
    &&& forall|i: int| 0 <= i < ts.len() ==> task_wf(#[trigger] ts[i])
}

pub open spec fn action_wf(a: ActionV) -> bool {
    &&& str_ok(a.description)
    &&& str_ok(a.details)
}

pub open spec fn approval_wf(a: ApprovalRequestV) -> bool {
    &&& str_ok(a.id)
    &&& action_wf(a.action)
    &&& str_ok(a.reason)
}

pub open spec fn approvals_wf(qs: Seq<ApprovalRequestV>) -> bool {
    &&& qs.len() <= u64::MAX
    &&& forall|i: int| 0 <= i < qs.len() ==> approval_wf(#[trigger] qs[i])
}

pub open spec fn finding_wf(f: FindingV) -> bool {
    &&& str_ok(f.id)
    &&& str_ok(f.title)
    &&& str_ok(f.description)
    &&& str_ok(f.tool_source)
    &&& str_ok(f.details)
}

pub open spec fn findings_wf(fs: Seq<FindingV>) -> bool {
    &&& fs.len() <= u64::MAX
    &&& forall|i: int| 0 <= i < fs.len() ==> finding_wf(#[trigger] fs[i])
}

pub open spec fn artifact_wf(a: ArtifactV) -> bool {
    &&& str_ok(a.id)
    &&& str_ok(a.name)
    &&& str_ok(a.path)
    &&& pairs_wf(a.metadata)
}

pub open spec fn artifacts_wf(arts: Seq<ArtifactV>) -> bool {
    &&& arts.len() <= u64::MAX
    &&& forall|i: int| 0 <= i < arts.len() ==> artifact_wf(#[trigger] arts[i])
}

/// Machine-representability of a session snapshot: every string and
/// collection fits the format's count fields. Every snapshot built by
/// executable code satisfies this.
pub open spec fn session_wf(s: SessionStateV) -> bool {
    &&& str_ok(s.id)
    &&& str_ok(s.name)
    &&& tasks_wf(s.task_queue)
    &&& approvals_wf(s.approval_queue)
    &&& table_v_wf(s.agent_states)
    &&& findings_wf(s.findings)
    &&& artifacts_wf(s.artifacts)
    &&& pairs_wf(s.metadata)
}

// ---------------------------------------------------------------------------
// Readers: token streams back to values
// ---------------------------------------------------------------------------

pub open spec fn rd_u64(ts: Seq<TokenV>) -> Option<(u64, Seq<TokenV>)> {
    if ts.len() == 0 {
        Option::None
    } else {
        match ts[0] {
            TokenV::U(n) => Option::Some((n, ts.drop_first())),
            TokenV::S(_) => Option::None,
        }
    }
}

pub open spec fn rd_str(ts: Seq<TokenV>) -> Option<(Seq<char>, Seq<TokenV>)> {
    if ts.len() == 0 {
        Option::None
    } else {
        match ts[0] {
            TokenV::S(s) => Option::Some((s, ts.drop_first())),
            TokenV::U(_) => Option::None,
        }
    }
}

pub open spec fn rd_i64(ts: Seq<TokenV>) -> Option<(i64, Seq<TokenV>)> {
    match rd_u64(ts) {
        Option::Some((u, r)) => Option::Some((off_to_i64(u), r)),
        Option::None => Option::None,
    }
}

pub open spec fn rd_opt_str(ts: Seq<TokenV>) -> Option<(Option<Seq<char>>, Seq<TokenV>)> {
    match rd_u64(ts) {
        Option::Some((tag, r)) => if tag == 0 {
            Option::Some((Option::None, r))
        } else if tag == 1 {
            match rd_str(r) {
                Option::Some((s, r2)) => Option::Some((Option::Some(s), r2)),
                Option::None => Option::None,
            }
        } else {
            Option::None
        },
        Option::None => Option::None,
    }
}

pub open spec fn rd_opt_i64(ts: Seq<TokenV>) -> Option<(Option<i64>, Seq<TokenV>)> {
    match rd_u64(ts) {
        Option::Some((tag, r)) => if tag == 0 {
            Option::Some((Option::None, r))
        } else if tag == 1 {
            match rd_i64(r) {
                Option::Some((n, r2)) => Option::Some((Option::Some(n), r2)),
                Option::None => Option::None,
            }
        } else {
            Option::None
        },
        Option::None => Option::None,
    }
}

pub open spec fn rd_pairs_body(ts: Seq<TokenV>, n: nat) -> Option<
    (Seq<(Seq<char>, Seq<char>)>, Seq<TokenV>),
>
    decreases n,
{
    if n == 0 {
        Option::Some((Seq::empty(), ts))
    } else {
        match rd_str(ts) {
            Option::Some((a, r1)) => match rd_str(r1) {
                Option::Some((b, r2)) => match rd_pairs_body(r2, (n - 1) as nat) {
                    Option::Some((rest, r3)) => Option::Some((seq![(a, b)] + rest, r3)),
                    Option::None => Option::None,
                },
                Option::None => Option::None,
            },
            Option::None => Option::None,
        }
    }
}

pub open spec fn rd_pairs(ts: Seq<TokenV>) -> Option<(Seq<(Seq<char>, Seq<char>)>, Seq<TokenV>)> {
    match rd_u64(ts) {
        Option::Some((n, r)) => rd_pairs_body(r, n as nat),
        Option::None => Option::None,
    }
}

pub open spec fn rd_agent(ts: Seq<TokenV>) -> Option<(AgentStatusV, Seq<TokenV>)> {
    match rd_u64(ts) {
        Option::Some((at, r1)) => match agent_of_tag(at) {
            Option::Some(agent) => match rd_u64(r1) {
                Option::Some((st, r2)) => match astate_of_tag(st) {
                    Option::Some(state) => match rd_opt_str(r2) {
                        Option::Some((task, r3)) => match rd_i64(r3) {
                            Option::Some((lu, r4)) => Option::Some(
                                (
                                    AgentStatusV {
                                        agent,
                                        state,
                                        current_task: task,
                                        last_update: lu,
                                    },
                                    r4,
                                ),
                            ),
                            Option::None => Option::None,
                        },
                        Option::None => Option::None,
                    },
                    Option::None => Option::None,
                },
                Option::None => Option::None,
            },
            Option::None => Option::None,
        },
        Option::None => Option::None,
    }
}

pub open spec fn rd_table(ts: Seq<TokenV>) -> Option<(AgentTableV, Seq<TokenV>)> {
    match rd_agent(ts) {
        Option::Some((planner, r1)) => match rd_agent(r1) {
            Option::Some((operator, r2)) => match rd_agent(r2) {
                Option::Some((navigator, r3)) => match rd_agent(r3) {
                    Option::Some((analyst, r4)) => match rd_agent(r4) {
                        Option::Some((scribe, r5)) => Option::Some(
                            (AgentTableV { planner, operator, navigator, analyst, scribe }, r5),
                        ),
                        Option::None => Option::None,
                    },
                    Option::None => Option::None,
                },
                Option::None => Option::None,
            },
            Option::None => Option::None,
        },
        Option::None => Option::None,
    }
}

pub open spec fn rd_task(ts: Seq<TokenV>) -> Option<(TaskV, Seq<TokenV>)> {
    match rd_str(ts) {
        Option::Some((id, r1)) => match rd_str(r1) {
            Option::Some((tool_name, r2)) => match rd_str(r2) {
                Option::Some((target, r3)) => match rd_pairs(r3) {
                    Option::Some((args, r4)) => match rd_u64(r4) {
                        Option::Some((st, r5)) => match tstatus_of_tag(st) {
                            Option::Some(status) => match rd_i64(r5) {
                                Option::Some((created, r6)) => match rd_opt_i64(r6) {
                                    Option::Some((started, r7)) => match rd_opt_i64(r7) {
                                        Option::Some((completed, r8)) => Option::Some(
                                            (
                                                TaskV {
                                                    id,
                                                    tool_name,
                                                    target,
                                                    args,
                                                    status,
                                                    created_at: created,
                                                    started_at: started,
                                                    completed_at: completed,
                                                },
                                                r8,
                                            ),
                                        ),
                                        Option::None => Option::None,
                                    },
                                    Option::None => Option::None,
                                },
                                Option::None => Option::None,
                            },
                            Option::None => Option::None,
                        },
                        Option::None => Option::None,
                    },
                    Option::None => Option::None,
                },
                Option::None => Option::None,
            },
            Option::None => Option::None,
        },
        Option::None => Option::None,
    }
}

pub open spec fn rd_tasks_body(ts: Seq<TokenV>, n: nat) -> Option<(Seq<TaskV>, Seq<TokenV>)>
    decreases n,
{
    if n == 0 {
        Option::Some((Seq::empty(), ts))
    } else {
        match rd_task(ts) {
            Option::Some((t, r1)) => match rd_tasks_body(r1, (n - 1) as nat) {
                Option::Some((rest, r2)) => Option::Some((seq![t] + rest, r2)),
                Option::None => Option::None,
            },
            Option::None => Option::None,
        }
    }
}

pub open spec fn rd_tasks(ts: Seq<TokenV>) -> Option<(Seq<TaskV>, Seq<TokenV>)> {
    match rd_u64(ts) {
        Option::Some((n, r)) => rd_tasks_body(r, n as nat),
        Option::None => Option::None,
    }
}

pub open spec fn rd_action(ts: Seq<TokenV>) -> Option<(ActionV, Seq<TokenV>)> {
    match rd_u64(ts) {
        Option::Some((at, r1)) => match atype_of_tag(at) {
            Option::Some(action_type) => match rd_str(r1) {
                Option::Some((description, r2)) => match rd_u64(r2) {
                    Option::Some((rt, r3)) => match risk_of_tag(rt) {
                        Option::Some(risk_level) => match rd_str(r3) {
                            Option::Some((details, r4)) => Option::Some(
                                (ActionV { action_type, description, risk_level, details }, r4),
                            ),
                            Option::None => Option::None,
                        },
                        Option::None => Option::None,
                    },
                    Option::None => Option::None,
                },
                Option::None => Option::None,
            },
            Option::None => Option::None,
        },
        Option::None => Option::None,
    }
}

pub open spec fn rd_approval(ts: Seq<TokenV>) -> Option<(ApprovalRequestV, Seq<TokenV>)> {
    match rd_str(ts) {
        Option::Some((id, r1)) => match rd_action(r1) {
            Option::Some((action, r2)) => match rd_str(r2) {
                Option::Some((reason, r3)) => match rd_i64(r3) {
                    Option::Some((created, r4)) => match rd_u64(r4) {
                        Option::Some((st, r5)) => match approval_of_tag(st) {
                            Option::Some(status) => Option::Some(
                                (
                                    ApprovalRequestV {
                                        id,
                                        action,
                                        reason,
                                        created_at: created,
                                        status,
                                    },
                                    r5,
                                ),
                            ),
                            Option::None => Option::None,
                        },
                        Option::None => Option::None,
                    },
                    Option::None => Option::None,
                },
                Option::None => Option::None,
            },
            Option::None => Option::None,
        },
        Option::None => Option::None,
    }
}

pub open spec fn rd_approvals_body(ts: Seq<TokenV>, n: nat) -> Option<
    (Seq<ApprovalRequestV>, Seq<TokenV>),
>
    decreases n,
{
    if n == 0 {
        Option::Some((Seq::empty(), ts))
    } else {
        match rd_approval(ts) {
            Option::Some((a, r1)) => match rd_approvals_body(r1, (n - 1) as nat) {
                Option::Some((rest, r2)) => Option::Some((seq![a] + rest, r2)),
                Option::None => Option::None,
            },
            Option::None => Option::None,
        }
    }
}

pub open spec fn rd_approvals(ts: Seq<TokenV>) -> Option<(Seq<ApprovalRequestV>, Seq<TokenV>)> {
    match rd_u64(ts) {
        Option::Some((n, r)) => rd_approvals_body(r, n as nat),
        Option::None => Option::None,
    }
}

pub open spec fn rd_finding(ts: Seq<TokenV>) -> Option<(FindingV, Seq<TokenV>)> {
    match rd_str(ts) {
        Option::Some((id, r1)) => match rd_str(r1) {
            Option::Some((title, r2)) => match rd_u64(r2) {
                Option::Some((sv, r3)) => match severity_of_tag(sv) {
                    Option::Some(severity) => match rd_str(r3) {
                        Option::Some((description, r4)) => match rd_str(r4) {
                            Option::Some((tool_source, r5)) => match rd_i64(r5) {
                                Option::Some((discovered, r6)) => match rd_str(r6) {
                                    Option::Some((details, r7)) => Option::Some(
                                        (
                                            FindingV {
                                                id,
                                                title,
                                                severity,
                                                description,
                                                tool_source,
                                                discovered_at: discovered,
                                                details,
                                            },
                                            r7,
                                        ),
                                    ),
                                    Option::None => Option::None,
                                },
                                Option::None => Option::None,
                            },
                            Option::None => Option::None,
                        },
                        Option::None => Option::None,
                    },
                    Option::None => Option::None,
                },
                Option::None => Option::None,
            },
            Option::None => Option::None,
        },
        Option::None => Option::None,
    }
}

pub open spec fn rd_findings_body(ts: Seq<TokenV>, n: nat) -> Option<(Seq<FindingV>, Seq<TokenV>)>
    decreases n,
{
    if n == 0 {
        Option::Some((Seq::empty(), ts))
    } else {
        match rd_finding(ts) {
            Option::Some((f, r1)) => match rd_findings_body(r1, (n - 1) as nat) {
                Option::Some((rest, r2)) => Option::Some((seq![f] + rest, r2)),
                Option::None => Option::None,
            },
            Option::None => Option::None,
        }
    }
}

pub open spec fn rd_findings(ts: Seq<TokenV>) -> Option<(Seq<FindingV>, Seq<TokenV>)> {
    match rd_u64(ts) {
        Option::Some((n, r)) => rd_findings_body(r, n as nat),
        Option::None => Option::None,
    }
}

pub open spec fn rd_artifact(ts: Seq<TokenV>) -> Option<(ArtifactV, Seq<TokenV>)> {
    match rd_str(ts) {
        Option::Some((id, r1)) => match rd_u64(r1) {
            Option::Some((at, r2)) => match arttype_of_tag(at) {
                Option::Some(artifact_type) => match rd_str(r2) {
                    Option::Some((name, r3)) => match rd_str(r3) {
                        Option::Some((path, r4)) => match rd_i64(r4) {
                            Option::Some((created, r5)) => match rd_pairs(r5) {
                                Option::Some((metadata, r6)) => Option::Some(
                                    (
                                        ArtifactV {
                                            id,
                                            artifact_type,
                                            name,
                                            path,
                                            created_at: created,
                                            metadata,
                                        },
                                        r6,
                                    ),
                                ),
                                Option::None => Option::None,
                            },
                            Option::None => Option::None,
                        },
                        Option::None => Option::None,
                    },
                    Option::None => Option::None,
                },
                Option::None => Option::None,
            },
            Option::None => Option::None,
        },
        Option::None => Option::None,
    }
}

pub open spec fn rd_artifacts_body(ts: Seq<TokenV>, n: nat) -> Option<
    (Seq<ArtifactV>, Seq<TokenV>),
>
    decreases n,
{
    if n == 0 {
        Option::Some((Seq::empty(), ts))
    } else {
        match rd_artifact(ts) {
            Option::Some((a, r1)) => match rd_artifacts_body(r1, (n - 1) as nat) {
                Option::Some((rest, r2)) => Option::Some((seq![a] + rest, r2)),
                Option::None => Option::None,
            },
            Option::None => Option::None,
        }
    }
}

pub open spec fn rd_artifacts(ts: Seq<TokenV>) -> Option<(Seq<ArtifactV>, Seq<TokenV>)> {
    match rd_u64(ts) {
        Option::Some((n, r)) => rd_artifacts_body(r, n as nat),
        Option::None => Option::None,
    }
}

pub open spec fn rd_session_head(ts: Seq<TokenV>) -> Option<
    ((Seq<char>, Seq<char>, SessionStatus, OperationalMode, i64, i64), Seq<TokenV>),
> {
    match rd_str(ts) {
        Option::Some((id, r1)) => match rd_str(r1) {
            Option::Some((name, r2)) => match rd_u64(r2) {
                Option::Some((st, r3)) => match status_of_tag(st) {
                    Option::Some(status) => match rd_u64(r3) {
                        Option::Some((md, r4)) => match mode_of_tag(md) {
                            Option::Some(mode) => match rd_i64(r4) {
                                Option::Some((created, r5)) => match rd_i64(r5) {
                                    Option::Some((updated, r6)) => Option::Some(
                                        ((id, name, status, mode, created, updated), r6),
                                    ),
                                    Option::None => Option::None,
                                },
                                Option::None => Option::None,
                            },
                            Option::None => Option::None,
                        },
                        Option::None => Option::None,
                    },
                    Option::None => Option::None,
                },
                Option::None => Option::None,
            },
            Option::None => Option::None,
        },
        Option::None => Option::None,
    }
}

pub open spec fn rd_session_tail(ts: Seq<TokenV>) -> Option<
    (
        (
            Seq<TaskV>,
            Seq<ApprovalRequestV>,
            AgentTableV,
            Seq<FindingV>,
            Seq<ArtifactV>,
            Seq<(Seq<char>, Seq<char>)>,
        ),
        Seq<TokenV>,
    ),
> {
    match rd_tasks(ts) {
        Option::Some((task_queue, r7)) => match rd_approvals(r7) {
            Option::Some((approval_queue, r8)) => match rd_table(r8) {
                Option::Some((agent_states, r9)) => match rd_findings(r9) {
                    Option::Some((findings, r10)) => match rd_artifacts(r10) {
                        Option::Some((artifacts, r11)) => match rd_pairs(r11) {
                            Option::Some((metadata, r12)) => Option::Some(
                                (
                                    (
                                        task_queue,
                                        approval_queue,
                                        agent_states,
                                        findings,
                                        artifacts,
                                        metadata,
                                    ),
                                    r12,
                                ),
                            ),
                            Option::None => Option::None,
                        },
                        Option::None => Option::None,
                    },
                    Option::None => Option::None,
                },
                Option::None => Option::None,
            },
            Option::None => Option::None,
        },
        Option::None => Option::None,
    }
}

pub open spec fn rd_session(ts: Seq<TokenV>) -> Option<(SessionStateV, Seq<TokenV>)> {
    match rd_session_head(ts) {
        Option::Some((h, r)) => match rd_session_tail(r) {
            Option::Some((t, r2)) => Option::Some(
                (
                    SessionStateV {
                        id: h.0,
                        name: h.1,
                        status: h.2,
                        mode: h.3,
                        created_at: h.4,
                        updated_at: h.5,
                        task_queue: t.0,
                        approval_queue: t.1,
                        agent_states: t.2,
                        findings: t.3,
                        artifacts: t.4,
                        metadata: t.5,
                    },
                    r2,
                ),
            ),
            Option::None => Option::None,
        },
        Option::None => Option::None,
    }
}

/// Reads the whole envelope: version, snapshot, save instant.
pub open spec fn rd_file(ts: Seq<TokenV>) -> Option<((Seq<char>, SessionStateV, i64), Seq<TokenV>)> {
    match rd_str(ts) {
        Option::Some((version, r1)) => match rd_session(r1) {
            Option::Some((session, r2)) => match rd_i64(r2) {
                Option::Some((saved_at, r3)) => Option::Some(((version, session, saved_at), r3)),
                Option::None => Option::None,
            },
            Option::None => Option::None,
        },
        Option::None => Option::None,
    }
}

/// The full text of a session file.
pub open spec fn spec_encode_file(version: Seq<char>, session: SessionStateV, saved_at: i64) -> Seq<
    char,
> {
    crate::codec::toks_chars(file_toks(version, session, saved_at))
}

/// What a session file text denotes, if anything: the whole text must be
/// one well-formed envelope.
pub open spec fn spec_decode_file(text: Seq<char>) -> Option<(Seq<char>, SessionStateV, i64)> {
    match crate::codec::toks_decode(text) {
        Option::Some(ts) => match rd_file(ts) {
            Option::Some((f, rest)) => if rest.len() == 0 {
                Option::Some(f)
            } else {
                Option::None
            },
            Option::None => Option::None,
        },
        Option::None => Option::None,
    }
}

// ---------------------------------------------------------------------------
// Round trip: reading written tokens
// ---------------------------------------------------------------------------

pub proof fn lemma_rd_u64_cons(n: u64, rest: Seq<TokenV>)
    ensures
        rd_u64(seq![TokenV::U(n)] + rest) == Option::Some((n, rest)),
{
    let ts = seq![TokenV::U(n)] + rest;
    assert(ts[0] == TokenV::U(n));
    assert(ts.drop_first() =~= rest);
}

pub proof fn lemma_rd_str_cons(s: Seq<char>, rest: Seq<TokenV>)
    ensures
        rd_str(seq![TokenV::S(s)] + rest) == Option::Some((s, rest)),
{
    let ts = seq![TokenV::S(s)] + rest;
    assert(ts[0] == TokenV::S(s));
    assert(ts.drop_first() =~= rest);
}

pub proof fn lemma_rd_i64_cons(n: i64, rest: Seq<TokenV>)
    ensures
        rd_i64(seq![TokenV::U(i64_to_off(n))] + rest) == Option::Some((n, rest)),
{
    lemma_rd_u64_cons(i64_to_off(n), rest);
    lemma_off_round_trip(n);
}

pub proof fn lemma_rd_opt_str(o: Option<Seq<char>>, rest: Seq<TokenV>)
    ensures
        rd_opt_str(opt_str_toks(o) + rest) == Option::Some((o, rest)),
{
    match o {
        Option::None => {
            assert(opt_str_toks(o) + rest =~= seq![TokenV::U(0)] + rest);
            lemma_rd_u64_cons(0, rest);
        },
        Option::Some(s) => {
            assert(opt_str_toks(o) + rest =~= seq![TokenV::U(1)] + (seq![TokenV::S(s)] + rest));
            lemma_rd_u64_cons(1, seq![TokenV::S(s)] + rest);
            lemma_rd_str_cons(s, rest);
        },
    }
}

pub proof fn lemma_rd_opt_i64(o: Option<i64>, rest: Seq<TokenV>)
    ensures
        rd_opt_i64(opt_i64_toks(o) + rest) == Option::Some((o, rest)),
{
    match o {
        Option::None => {
            assert(opt_i64_toks(o) + rest =~= seq![TokenV::U(0)] + rest);
            lemma_rd_u64_cons(0, rest);
        },
        Option::Some(n) => {
            assert(opt_i64_toks(o) + rest =~= seq![TokenV::U(1)] + (seq![TokenV::U(i64_to_off(n))]
                + rest));
            lemma_rd_u64_cons(1, seq![TokenV::U(i64_to_off(n))] + rest);
            lemma_rd_i64_cons(n, rest);
        },
    }
}

pub proof fn lemma_rd_pairs_body(ps: Seq<(Seq<char>, Seq<char>)>, rest: Seq<TokenV>)
    ensures
        rd_pairs_body(pairs_body_toks(ps) + rest, ps.len()) == Option::Some((ps, rest)),
    decreases ps.len(),
{
    if ps.len() == 0 {
        assert(pairs_body_toks(ps) + rest =~= rest);
        assert(ps =~= Seq::<(Seq<char>, Seq<char>)>::empty());
    } else {
        let tail = ps.drop_first();
        let t1 = seq![TokenV::S(ps[0].1)] + (pairs_body_toks(tail) + rest);
        assert(pairs_body_toks(ps) + rest =~= seq![TokenV::S(ps[0].0)] + t1);
        lemma_rd_str_cons(ps[0].0, t1);
        lemma_rd_str_cons(ps[0].1, pairs_body_toks(tail) + rest);
        lemma_rd_pairs_body(tail, rest);
        assert((ps[0].0, ps[0].1) == ps[0]);
        assert(seq![ps[0]] + tail =~= ps);
    }
}

pub proof fn lemma_rd_pairs(ps: Seq<(Seq<char>, Seq<char>)>, rest: Seq<TokenV>)
    requires
        ps.len() <= u64::MAX,
    ensures
        rd_pairs(pairs_toks(ps) + rest) == Option::Some((ps, rest)),
{
    assert(pairs_toks(ps) + rest =~= seq![TokenV::U(ps.len() as u64)] + (pairs_body_toks(ps)
        + rest));
    lemma_rd_u64_cons(ps.len() as u64, pairs_body_toks(ps) + rest);
    lemma_rd_pairs_body(ps, rest);
}

pub proof fn lemma_rd_agent(a: AgentStatusV, rest: Seq<TokenV>)
    ensures
        rd_agent(agent_toks(a) + rest) == Option::Some((a, rest)),
{
    let t3 = seq![TokenV::U(i64_to_off(a.last_update))] + rest;
    let t2 = opt_str_toks(a.current_task) + t3;
    let t1 = seq![TokenV::U(astate_tag(a.state))] + t2;
    assert(agent_toks(a) + rest =~= seq![TokenV::U(agent_tag(a.agent))] + t1);
    lemma_rd_u64_cons(agent_tag(a.agent), t1);
    assert(agent_of_tag(agent_tag(a.agent)) == Option::Some(a.agent));
    lemma_rd_u64_cons(astate_tag(a.state), t2);
    assert(astate_of_tag(astate_tag(a.state)) == Option::Some(a.state));
    lemma_rd_opt_str(a.current_task, t3);
    lemma_rd_i64_cons(a.last_update, rest);
    assert(rd_agent(agent_toks(a) + rest) == Option::Some(
        (
            AgentStatusV {
                agent: a.agent,
                state: a.state,
                current_task: a.current_task,
                last_update: a.last_update,
            },
            rest,
        ),
    ));
    assert(AgentStatusV {
        agent: a.agent,
        state: a.state,
        current_task: a.current_task,
        last_update: a.last_update,
    } =~= a);
}

#[verifier::rlimit(100)]
pub proof fn lemma_rd_table(t: AgentTableV, rest: Seq<TokenV>)
    ensures
        rd_table(table_toks(t) + rest) == Option::Some((t, rest)),
{
    let t4 = agent_toks(t.scribe) + rest;
    let t3 = agent_toks(t.analyst) + t4;
    let t2 = agent_toks(t.navigator) + t3;
    let t1 = agent_toks(t.operator) + t2;
    let whole = table_toks(t) + rest;
    assert(whole == agent_toks(t.planner) + t1) by {
        assert(table_toks(t) + rest =~= agent_toks(t.planner) + t1);
    }
    assert(rd_agent(whole) == Option::Some((t.planner, t1))) by {
        lemma_rd_agent(t.planner, t1);
    }
    assert(rd_agent(t1) == Option::Some((t.operator, t2))) by {
        lemma_rd_agent(t.operator, t2);
    }
    assert(rd_agent(t2) == Option::Some((t.navigator, t3))) by {
        lemma_rd_agent(t.navigator, t3);
    }
    assert(rd_agent(t3) == Option::Some((t.analyst, t4))) by {
        lemma_rd_agent(t.analyst, t4);
    }
    assert(rd_agent(t4) == Option::Some((t.scribe, rest))) by {
        lemma_rd_agent(t.scribe, rest);
    }
    assert(AgentTableV {
        planner: t.planner,
        operator: t.operator,
        navigator: t.navigator,
        analyst: t.analyst,
        scribe: t.scribe,
    } =~= t);
}

#[verifier::rlimit(100)]
pub proof fn lemma_rd_task(t: TaskV, rest: Seq<TokenV>)
    requires
        t.args.len() <= u64::MAX,
    ensures
        rd_task(task_toks(t) + rest) == Option::Some((t, rest)),
{
    let t7 = opt_i64_toks(t.completed_at) + rest;
    let t6 = opt_i64_toks(t.started_at) + t7;
    let t5 = seq![TokenV::U(i64_to_off(t.created_at))] + t6;
    let t4 = seq![TokenV::U(tstatus_tag(t.status))] + t5;
    let t3 = pairs_toks(t.args) + t4;
    let t2 = seq![TokenV::S(t.target)] + t3;
    let t1 = seq![TokenV::S(t.tool_name)] + t2;
    assert(task_toks(t) + rest =~= seq![TokenV::S(t.id)] + t1);
    lemma_rd_str_cons(t.id, t1);
    lemma_rd_str_cons(t.tool_name, t2);
    lemma_rd_str_cons(t.target, t3);
    lemma_rd_pairs(t.args, t4);
    lemma_rd_u64_cons(tstatus_tag(t.status), t5);
    assert(tstatus_of_tag(tstatus_tag(t.status)) == Option::Some(t.status));
    lemma_rd_i64_cons(t.created_at, t6);
    lemma_rd_opt_i64(t.started_at, t7);
    lemma_rd_opt_i64(t.completed_at, rest);
    assert(TaskV {
        id: t.id,
        tool_name: t.tool_name,
        target: t.target,
        args: t.args,
        status: t.status,
        created_at: t.created_at,
        started_at: t.started_at,
        completed_at: t.completed_at,
    } =~= t);
}

pub proof fn lemma_rd_tasks_body(ts: Seq<TaskV>, rest: Seq<TokenV>)
    requires
        forall|i: int| 0 <= i < ts.len() ==> (#[trigger] ts[i]).args.len() <= u64::MAX,
    ensures
        rd_tasks_body(tasks_body_toks(ts) + rest, ts.len()) == Option::Some((ts, rest)),
    decreases ts.len(),
{
    if ts.len() == 0 {
        assert(tasks_body_toks(ts) + rest =~= rest);
        assert(ts =~= Seq::<TaskV>::empty());
    } else {
        let tail = ts.drop_first();
        assert(tasks_body_toks(ts) + rest =~= task_toks(ts[0]) + (tasks_body_toks(tail) + rest));
        lemma_rd_task(ts[0], tasks_body_toks(tail) + rest);
        assert(forall|i: int|
            0 <= i < tail.len() ==> (#[trigger] tail[i]).args.len() <= u64::MAX) by {
            assert(forall|i: int| 0 <= i < tail.len() ==> tail[i] == ts[i + 1]);
        }
        lemma_rd_tasks_body(tail, rest);
        assert(seq![ts[0]] + tail =~= ts);
    }
}

pub proof fn lemma_rd_tasks(ts: Seq<TaskV>, rest: Seq<TokenV>)
    requires
        tasks_wf(ts),
    ensures
        rd_tasks(tasks_toks(ts) + rest) == Option::Some((ts, rest)),
{
    assert(tasks_toks(ts) + rest =~= seq![TokenV::U(ts.len() as u64)] + (tasks_body_toks(ts)
        + rest));
    lemma_rd_u64_cons(ts.len() as u64, tasks_body_toks(ts) + rest);
    lemma_rd_tasks_body(ts, rest);
}

pub proof fn lemma_rd_action(a: ActionV, rest: Seq<TokenV>)
    ensures
        rd_action(action_toks(a) + rest) == Option::Some((a, rest)),
{
    let t3 = seq![TokenV::S(a.details)] + rest;
    let t2 = seq![TokenV::U(risk_tag(a.risk_level))] + t3;
    let t1 = seq![TokenV::S(a.description)] + t2;
    assert(action_toks(a) + rest =~= seq![TokenV::U(atype_tag(a.action_type))] + t1);
    lemma_rd_u64_cons(atype_tag(a.action_type), t1);
    assert(atype_of_tag(atype_tag(a.action_type)) == Option::Some(a.action_type));
    lemma_rd_str_cons(a.description, t2);
    lemma_rd_u64_cons(risk_tag(a.risk_level), t3);
    assert(risk_of_tag(risk_tag(a.risk_level)) == Option::Some(a.risk_level));
    lemma_rd_str_cons(a.details, rest);
    assert(ActionV {
        action_type: a.action_type,
        description: a.description,
        risk_level: a.risk_level,
        details: a.details,
    } =~= a);
}

pub proof fn lemma_rd_approval(a: ApprovalRequestV, rest: Seq<TokenV>)
    ensures
        rd_approval(approval_toks(a) + rest) == Option::Some((a, rest)),
{
    let t4 = seq![TokenV::U(approval_tag(a.status))] + rest;
    let t3 = seq![TokenV::U(i64_to_off(a.created_at))] + t4;
    let t2 = seq![TokenV::S(a.reason)] + t3;
    let t1 = action_toks(a.action) + t2;
    assert(approval_toks(a) + rest =~= seq![TokenV::S(a.id)] + t1);
    lemma_rd_str_cons(a.id, t1);
    lemma_rd_action(a.action, t2);
    lemma_rd_str_cons(a.reason, t3);
    lemma_rd_i64_cons(a.created_at, t4);
    lemma_rd_u64_cons(approval_tag(a.status), rest);
    assert(approval_of_tag(approval_tag(a.status)) == Option::Some(a.status));
    assert(ApprovalRequestV {
        id: a.id,
        action: a.action,
        reason: a.reason,
        created_at: a.created_at,
        status: a.status,
    } =~= a);
}

pub proof fn lemma_rd_approvals_body(qs: Seq<ApprovalRequestV>, rest: Seq<TokenV>)
    ensures
        rd_approvals_body(approvals_body_toks(qs) + rest, qs.len()) == Option::Some((qs, rest)),
    decreases qs.len(),
{
    if qs.len() == 0 {
        assert(approvals_body_toks(qs) + rest =~= rest);
        assert(qs =~= Seq::<ApprovalRequestV>::empty());
    } else {
        let tail = qs.drop_first();
        assert(approvals_body_toks(qs) + rest =~= approval_toks(qs[0]) + (approvals_body_toks(tail)
            + rest));
        lemma_rd_approval(qs[0], approvals_body_toks(tail) + rest);
        lemma_rd_approvals_body(tail, rest);
        assert(seq![qs[0]] + tail =~= qs);
    }
}

pub proof fn lemma_rd_approvals(qs: Seq<ApprovalRequestV>, rest: Seq<TokenV>)
    requires
        qs.len() <= u64::MAX,
    ensures
        rd_approvals(approvals_toks(qs) + rest) == Option::Some((qs, rest)),
{
    assert(approvals_toks(qs) + rest =~= seq![TokenV::U(qs.len() as u64)] + (approvals_body_toks(qs)
        + rest));
    lemma_rd_u64_cons(qs.len() as u64, approvals_body_toks(qs) + rest);
    lemma_rd_approvals_body(qs, rest);
}

pub proof fn lemma_rd_finding(f: FindingV, rest: Seq<TokenV>)
    ensures
        rd_finding(finding_toks(f) + rest) == Option::Some((f, rest)),
{
    let t6 = seq![TokenV::S(f.details)] + rest;
    let t5 = seq![TokenV::U(i64_to_off(f.discovered_at))] + t6;
    let t4 = seq![TokenV::S(f.tool_source)] + t5;
    let t3 = seq![TokenV::S(f.description)] + t4;
    let t2 = seq![TokenV::U(severity_tag(f.severity))] + t3;
    let t1 = seq![TokenV::S(f.title)] + t2;
    assert(finding_toks(f) + rest =~= seq![TokenV::S(f.id)] + t1);
    lemma_rd_str_cons(f.id, t1);
    lemma_rd_str_cons(f.title, t2);
    lemma_rd_u64_cons(severity_tag(f.severity), t3);
    assert(severity_of_tag(severity_tag(f.severity)) == Option::Some(f.severity));
    lemma_rd_str_cons(f.description, t4);
    lemma_rd_str_cons(f.tool_source, t5);
    lemma_rd_i64_cons(f.discovered_at, t6);
    lemma_rd_str_cons(f.details, rest);
    assert(FindingV {
        id: f.id,
        title: f.title,
        severity: f.severity,
        description: f.description,
        tool_source: f.tool_source,
        discovered_at: f.discovered_at,
        details: f.details,
    } =~= f);
}

pub proof fn lemma_rd_findings_body(fs: Seq<FindingV>, rest: Seq<TokenV>)
    ensures
        rd_findings_body(findings_body_toks(fs) + rest, fs.len()) == Option::Some((fs, rest)),
    decreases fs.len(),
{
    if fs.len() == 0 {
        assert(findings_body_toks(fs) + rest =~= rest);
        assert(fs =~= Seq::<FindingV>::empty());
    } else {
        let tail = fs.drop_first();
        assert(findings_body_toks(fs) + rest =~= finding_toks(fs[0]) + (findings_body_toks(tail)
            + rest));
        lemma_rd_finding(fs[0], findings_body_toks(tail) + rest);
        lemma_rd_findings_body(tail, rest);
        assert(seq![fs[0]] + tail =~= fs);
    }
}

pub proof fn lemma_rd_findings(fs: Seq<FindingV>, rest: Seq<TokenV>)
    requires
        fs.len() <= u64::MAX,
    ensures
        rd_findings(findings_toks(fs) + rest) == Option::Some((fs, rest)),
{
    assert(findings_toks(fs) + rest =~= seq![TokenV::U(fs.len() as u64)] + (findings_body_toks(fs)
        + rest));
    lemma_rd_u64_cons(fs.len() as u64, findings_body_toks(fs) + rest);
    lemma_rd_findings_body(fs, rest);
}

pub proof fn lemma_rd_artifact(a: ArtifactV, rest: Seq<TokenV>)
    requires
        a.metadata.len() <= u64::MAX,
    ensures
        rd_artifact(artifact_toks(a) + rest) == Option::Some((a, rest)),
{
    let t5 = pairs_toks(a.metadata) + rest;
    let t4 = seq![TokenV::U(i64_to_off(a.created_at))] + t5;
    let t3 = seq![TokenV::S(a.path)] + t4;
    let t2 = seq![TokenV::S(a.name)] + t3;
    let t1 = seq![TokenV::U(arttype_tag(a.artifact_type))] + t2;
    assert(artifact_toks(a) + rest =~= seq![TokenV::S(a.id)] + t1);
    lemma_rd_str_cons(a.id, t1);
    lemma_rd_u64_cons(arttype_tag(a.artifact_type), t2);
    assert(arttype_of_tag(arttype_tag(a.artifact_type)) == Option::Some(a.artifact_type));
    lemma_rd_str_cons(a.name, t3);
    lemma_rd_str_cons(a.path, t4);
    lemma_rd_i64_cons(a.created_at, t5);
    lemma_rd_pairs(a.metadata, rest);
    assert(ArtifactV {
        id: a.id,
        artifact_type: a.artifact_type,
        name: a.name,
        path: a.path,
        created_at: a.created_at,
        metadata: a.metadata,
    } =~= a);
}

pub proof fn lemma_rd_artifacts_body(arts: Seq<ArtifactV>, rest: Seq<TokenV>)
    requires
        forall|i: int| 0 <= i < arts.len() ==> (#[trigger] arts[i]).metadata.len() <= u64::MAX,
    ensures
        rd_artifacts_body(artifacts_body_toks(arts) + rest, arts.len()) == Option::Some(
            (arts, rest),
        ),
    decreases arts.len(),
{
    if arts.len() == 0 {
        assert(artifacts_body_toks(arts) + rest =~= rest);
        assert(arts =~= Seq::<ArtifactV>::empty());
    } else {
        let tail = arts.drop_first();
        assert(artifacts_body_toks(arts) + rest =~= artifact_toks(arts[0]) + (artifacts_body_toks(
            tail,
        ) + rest));
        lemma_rd_artifact(arts[0], artifacts_body_toks(tail) + rest);
        assert(forall|i: int|
            0 <= i < tail.len() ==> (#[trigger] tail[i]).metadata.len() <= u64::MAX) by {
            assert(forall|i: int| 0 <= i < tail.len() ==> tail[i] == arts[i + 1]);
        }
        lemma_rd_artifacts_body(tail, rest);
        assert(seq![arts[0]] + tail =~= arts);
    }
}

pub proof fn lemma_rd_artifacts(arts: Seq<ArtifactV>, rest: Seq<TokenV>)
    requires
        artifacts_wf(arts),
    ensures
        rd_artifacts(artifacts_toks(arts) + rest) == Option::Some((arts, rest)),
{
    assert(artifacts_toks(arts) + rest =~= seq![TokenV::U(arts.len() as u64)]
        + (artifacts_body_toks(arts) + rest));
    lemma_rd_u64_cons(arts.len() as u64, artifacts_body_toks(arts) + rest);
    lemma_rd_artifacts_body(arts, rest);
}

#[verifier::rlimit(100)]
proof fn lemma_rd_session_head(s: SessionStateV, after: Seq<TokenV>)
    ensures
        rd_session_head(session_head_toks(s) + after) == Option::Some(
            ((s.id, s.name, s.status, s.mode, s.created_at, s.updated_at), after),
        ),
{
    let t5 = seq![TokenV::U(i64_to_off(s.updated_at))] + after;
    let t4 = seq![TokenV::U(i64_to_off(s.created_at))] + t5;
    let t3 = seq![TokenV::U(mode_tag(s.mode))] + t4;
    let t2 = seq![TokenV::U(status_tag(s.status))] + t3;
    let t1 = seq![TokenV::S(s.name)] + t2;
    let whole = session_head_toks(s) + after;
    assert(whole == seq![TokenV::S(s.id)] + t1) by {
        assert(session_head_toks(s) + after =~= seq![TokenV::S(s.id)] + t1);
    }
    assert(rd_str(whole) == Option::Some((s.id, t1))) by {
        lemma_rd_str_cons(s.id, t1);
    }
    assert(rd_str(t1) == Option::Some((s.name, t2))) by {
        lemma_rd_str_cons(s.name, t2);
    }
    assert(rd_u64(t2) == Option::Some((status_tag(s.status), t3))) by {
        lemma_rd_u64_cons(status_tag(s.status), t3);
    }
    assert(status_of_tag(status_tag(s.status)) == Option::Some(s.status));
    assert(rd_u64(t3) == Option::Some((mode_tag(s.mode), t4))) by {
        lemma_rd_u64_cons(mode_tag(s.mode), t4);
    }
    assert(mode_of_tag(mode_tag(s.mode)) == Option::Some(s.mode));
    assert(rd_i64(t4) == Option::Some((s.created_at, t5))) by {
        lemma_rd_i64_cons(s.created_at, t5);
    }
    assert(rd_i64(t5) == Option::Some((s.updated_at, after))) by {
        lemma_rd_i64_cons(s.updated_at, after);
    }
}

proof fn lemma_rd_session_tail(s: SessionStateV, rest: Seq<TokenV>)
    requires
        session_wf(s),
    ensures
        rd_session_tail(session_tail_toks(s) + rest) == Option::Some(
            (
                (s.task_queue, s.approval_queue, s.agent_states, s.findings, s.artifacts, s.metadata),
                rest,
            ),
        ),
{
    let t11 = pairs_toks(s.metadata) + rest;
    let t10 = artifacts_toks(s.artifacts) + t11;
    let t9 = findings_toks(s.findings) + t10;
    let t8 = table_toks(s.agent_states) + t9;
    let t7 = approvals_toks(s.approval_queue) + t8;
    assert(session_tail_toks(s) + rest =~= tasks_toks(s.task_queue) + t7);
    lemma_rd_tasks(s.task_queue, t7);
    lemma_rd_approvals(s.approval_queue, t8);
    lemma_rd_table(s.agent_states, t9);
    lemma_rd_findings(s.findings, t10);
    lemma_rd_artifacts(s.artifacts, t11);
    lemma_rd_pairs(s.metadata, rest);
}

#[verifier::rlimit(100)]
pub proof fn lemma_rd_session(s: SessionStateV, rest: Seq<TokenV>)
    requires
        session_wf(s),
    ensures
        rd_session(session_toks(s) + rest) == Option::Some((s, rest)),
{
    assert(session_toks(s) + rest =~= session_head_toks(s) + (session_tail_toks(s) + rest));
    lemma_rd_session_head(s, session_tail_toks(s) + rest);
    lemma_rd_session_tail(s, rest);
    assert(SessionStateV {
        id: s.id,
        name: s.name,
        status: s.status,
        mode: s.mode,
        created_at: s.created_at,
        updated_at: s.updated_at,
        task_queue: s.task_queue,
        approval_queue: s.approval_queue,
        agent_states: s.agent_states,
        findings: s.findings,
        artifacts: s.artifacts,
        metadata: s.metadata,
    } =~= s);
}

#[verifier::rlimit(100)]
pub proof fn lemma_rd_file(version: Seq<char>, s: SessionStateV, saved_at: i64, rest: Seq<TokenV>)
    requires
        session_wf(s),
    ensures
        rd_file(file_toks(version, s, saved_at) + rest) == Option::Some(
            ((version, s, saved_at), rest),
        ),
{
    let t2 = seq![TokenV::U(i64_to_off(saved_at))] + rest;
    let t1 = session_toks(s) + t2;
    assert(file_toks(version, s, saved_at) + rest =~= seq![TokenV::S(version)] + t1);
    lemma_rd_str_cons(version, t1);
    lemma_rd_session(s, t2);
    lemma_rd_i64_cons(saved_at, rest);
}

// ---------------------------------------------------------------------------
// The written tokens are well-formed at the character layer
// ---------------------------------------------------------------------------

pub proof fn lemma_toks_wf_concat(a: Seq<TokenV>, b: Seq<TokenV>)
    requires
        toks_wf(a),
        toks_wf(b),
    ensures
        toks_wf(a + b),
{
    assert forall|i: int| 0 <= i < (a + b).len() implies tok_wf(#[trigger] (a + b)[i]) by {
        if i < a.len() {
            assert((a + b)[i] == a[i]);
        } else {
            assert((a + b)[i] == b[i - a.len()]);
        }
    }
}

pub proof fn lemma_pairs_body_toks_wf(ps: Seq<(Seq<char>, Seq<char>)>)
    requires
        forall|i: int| 0 <= i < ps.len() ==> str_ok((#[trigger] ps[i]).0) && str_ok(ps[i].1),
    ensures
        toks_wf(pairs_body_toks(ps)),
    decreases ps.len(),
{
    if ps.len() == 0 {
    } else {
        let tail = ps.drop_first();
        assert(forall|i: int| 0 <= i < tail.len() ==> tail[i] == ps[i + 1]);
        lemma_pairs_body_toks_wf(tail);
        assert(toks_wf(seq![TokenV::S(ps[0].0), TokenV::S(ps[0].1)]));
        lemma_toks_wf_concat(seq![TokenV::S(ps[0].0), TokenV::S(ps[0].1)], pairs_body_toks(tail));
    }
}

pub proof fn lemma_pairs_toks_wf(ps: Seq<(Seq<char>, Seq<char>)>)
    requires
        pairs_wf(ps),
    ensures
        toks_wf(pairs_toks(ps)),
{
    lemma_pairs_body_toks_wf(ps);
    lemma_toks_wf_concat(seq![TokenV::U(ps.len() as u64)], pairs_body_toks(ps));
}

pub proof fn lemma_agent_toks_wf(a: AgentStatusV)
    requires
        agent_wf(a),
    ensures
        toks_wf(agent_toks(a)),
{
    assert(toks_wf(opt_str_toks(a.current_task)));
    lemma_toks_wf_concat(
        seq![TokenV::U(agent_tag(a.agent)), TokenV::U(astate_tag(a.state))],
        opt_str_toks(a.current_task),
    );
    lemma_toks_wf_concat(
        seq![TokenV::U(agent_tag(a.agent)), TokenV::U(astate_tag(a.state))] + opt_str_toks(
            a.current_task,
        ),
        seq![TokenV::U(i64_to_off(a.last_update))],
    );
}

pub proof fn lemma_table_toks_wf(t: AgentTableV)
    requires
        table_v_wf(t),
    ensures
        toks_wf(table_toks(t)),
{
    lemma_agent_toks_wf(t.planner);
    lemma_agent_toks_wf(t.operator);
    lemma_agent_toks_wf(t.navigator);
    lemma_agent_toks_wf(t.analyst);
    lemma_agent_toks_wf(t.scribe);
    lemma_toks_wf_concat(agent_toks(t.planner), agent_toks(t.operator));
    lemma_toks_wf_concat(agent_toks(t.planner) + agent_toks(t.operator), agent_toks(t.navigator));
    lemma_toks_wf_concat(
        agent_toks(t.planner) + agent_toks(t.operator) + agent_toks(t.navigator),
        agent_toks(t.analyst),
    );
    lemma_toks_wf_concat(
        agent_toks(t.planner) + agent_toks(t.operator) + agent_toks(t.navigator) + agent_toks(
            t.analyst,
        ),
        agent_toks(t.scribe),
    );
}

pub proof fn lemma_task_toks_wf(t: TaskV)
    requires
        task_wf(t),
    ensures
        toks_wf(task_toks(t)),
{
    lemma_pairs_toks_wf(t.args);
    assert(toks_wf(seq![TokenV::S(t.id), TokenV::S(t.tool_name), TokenV::S(t.target)]));
    assert(toks_wf(seq![TokenV::U(tstatus_tag(t.status)), TokenV::U(i64_to_off(t.created_at))]));
    assert(toks_wf(opt_i64_toks(t.started_at)));
    assert(toks_wf(opt_i64_toks(t.completed_at)));
    let a = seq![TokenV::S(t.id), TokenV::S(t.tool_name), TokenV::S(t.target)];
    let b = a + pairs_toks(t.args);
    let c = b + seq![TokenV::U(tstatus_tag(t.status)), TokenV::U(i64_to_off(t.created_at))];
    let d = c + opt_i64_toks(t.started_at);
    lemma_toks_wf_concat(a, pairs_toks(t.args));
    lemma_toks_wf_concat(b, seq![TokenV::U(tstatus_tag(t.status)), TokenV::U(i64_to_off(t.created_at))]);
    lemma_toks_wf_concat(c, opt_i64_toks(t.started_at));
    lemma_toks_wf_concat(d, opt_i64_toks(t.completed_at));
}

pub proof fn lemma_tasks_toks_wf(ts: Seq<TaskV>)
    requires
        tasks_wf(ts),
    ensures
        toks_wf(tasks_toks(ts)),
    decreases ts.len(),
{
    lemma_tasks_body_toks_wf(ts);
    lemma_toks_wf_concat(seq![TokenV::U(ts.len() as u64)], tasks_body_toks(ts));
}

pub proof fn lemma_tasks_body_toks_wf(ts: Seq<TaskV>)
    requires
        forall|i: int| 0 <= i < ts.len() ==> task_wf(#[trigger] ts[i]),
    ensures
        toks_wf(tasks_body_toks(ts)),
    decreases ts.len(),
{
    if ts.len() == 0 {
    } else {
        let tail = ts.drop_first();
        assert(forall|i: int| 0 <= i < tail.len() ==> tail[i] == ts[i + 1]);
        lemma_task_toks_wf(ts[0]);
        lemma_tasks_body_toks_wf(tail);
        lemma_toks_wf_concat(task_toks(ts[0]), tasks_body_toks(tail));
    }
}

pub proof fn lemma_action_toks_wf(a: ActionV)
    requires
        action_wf(a),
    ensures
        toks_wf(action_toks(a)),
{
}

pub proof fn lemma_approval_toks_wf(a: ApprovalRequestV)
    requires
        approval_wf(a),
    ensures
        toks_wf(approval_toks(a)),
{
    lemma_action_toks_wf(a.action);
    lemma_toks_wf_concat(seq![TokenV::S(a.id)], action_toks(a.action));
    lemma_toks_wf_concat(
        seq![TokenV::S(a.id)] + action_toks(a.action),
        seq![
            TokenV::S(a.reason),
            TokenV::U(i64_to_off(a.created_at)),
            TokenV::U(approval_tag(a.status)),
        ],
    );
}

pub proof fn lemma_approvals_body_toks_wf(qs: Seq<ApprovalRequestV>)
    requires
        forall|i: int| 0 <= i < qs.len() ==> approval_wf(#[trigger] qs[i]),
    ensures
        toks_wf(approvals_body_toks(qs)),
    decreases qs.len(),
{
    if qs.len() == 0 {
    } else {
        let tail = qs.drop_first();
        assert(forall|i: int| 0 <= i < tail.len() ==> tail[i] == qs[i + 1]);
        lemma_approval_toks_wf(qs[0]);
        lemma_approvals_body_toks_wf(tail);
        lemma_toks_wf_concat(approval_toks(qs[0]), approvals_body_toks(tail));
    }
}

pub proof fn lemma_approvals_toks_wf(qs: Seq<ApprovalRequestV>)
    requires
        approvals_wf(qs),
    ensures
        toks_wf(approvals_toks(qs)),
{
    lemma_approvals_body_toks_wf(qs);
    lemma_toks_wf_concat(seq![TokenV::U(qs.len() as u64)], approvals_body_toks(qs));
}

pub proof fn lemma_findings_toks_wf(fs: Seq<FindingV>)
    requires
        findings_wf(fs),
    ensures
        toks_wf(findings_toks(fs)),
{
    lemma_findings_body_toks_wf(fs);
    lemma_toks_wf_concat(seq![TokenV::U(fs.len() as u64)], findings_body_toks(fs));
}

pub proof fn lemma_findings_body_toks_wf(fs: Seq<FindingV>)
    requires
        forall|i: int| 0 <= i < fs.len() ==> finding_wf(#[trigger] fs[i]),
    ensures
        toks_wf(findings_body_toks(fs)),
    decreases fs.len(),
{
    if fs.len() == 0 {
    } else {
        let tail = fs.drop_first();
        assert(forall|i: int| 0 <= i < tail.len() ==> tail[i] == fs[i + 1]);
        assert(toks_wf(finding_toks(fs[0])));
        lemma_findings_body_toks_wf(tail);
        lemma_toks_wf_concat(finding_toks(fs[0]), findings_body_toks(tail));
    }
}

pub proof fn lemma_artifact_toks_wf(a: ArtifactV)
    requires
        artifact_wf(a),
    ensures
        toks_wf(artifact_toks(a)),
{
    lemma_pairs_toks_wf(a.metadata);
    lemma_toks_wf_concat(
        seq![
            TokenV::S(a.id),
            TokenV::U(arttype_tag(a.artifact_type)),
            TokenV::S(a.name),
            TokenV::S(a.path),
            TokenV::U(i64_to_off(a.created_at)),
        ],
        pairs_toks(a.metadata),
    );
}

pub proof fn lemma_artifacts_body_toks_wf(arts: Seq<ArtifactV>)
    requires
        forall|i: int| 0 <= i < arts.len() ==> artifact_wf(#[trigger] arts[i]),
    ensures
        toks_wf(artifacts_body_toks(arts)),
    decreases arts.len(),
{
    if arts.len() == 0 {
    } else {
        let tail = arts.drop_first();
        assert(forall|i: int| 0 <= i < tail.len() ==> tail[i] == arts[i + 1]);
        lemma_artifact_toks_wf(arts[0]);
        lemma_artifacts_body_toks_wf(tail);
        lemma_toks_wf_concat(artifact_toks(arts[0]), artifacts_body_toks(tail));
    }
}

pub proof fn lemma_artifacts_toks_wf(arts: Seq<ArtifactV>)
    requires
        artifacts_wf(arts),
    ensures
        toks_wf(artifacts_toks(arts)),
{
    lemma_artifacts_body_toks_wf(arts);
    lemma_toks_wf_concat(seq![TokenV::U(arts.len() as u64)], artifacts_body_toks(arts));
}

pub proof fn lemma_session_toks_wf(s: SessionStateV)
    requires
        session_wf(s),
    ensures
        toks_wf(session_toks(s)),
{
    assert(toks_wf(session_head_toks(s)));
    lemma_tasks_toks_wf(s.task_queue);
    lemma_approvals_toks_wf(s.approval_queue);
    lemma_table_toks_wf(s.agent_states);
    lemma_findings_toks_wf(s.findings);
    lemma_artifacts_toks_wf(s.artifacts);
    lemma_pairs_toks_wf(s.metadata);
    let a = tasks_toks(s.task_queue) + approvals_toks(s.approval_queue);
    let b = a + table_toks(s.agent_states);
    let c = b + findings_toks(s.findings);
    let d = c + artifacts_toks(s.artifacts);
    lemma_toks_wf_concat(tasks_toks(s.task_queue), approvals_toks(s.approval_queue));
    lemma_toks_wf_concat(a, table_toks(s.agent_states));
    lemma_toks_wf_concat(b, findings_toks(s.findings));
    lemma_toks_wf_concat(c, artifacts_toks(s.artifacts));
    lemma_toks_wf_concat(d, pairs_toks(s.metadata));
    lemma_toks_wf_concat(session_head_toks(s), session_tail_toks(s));
}

pub proof fn lemma_file_toks_wf(version: Seq<char>, s: SessionStateV, saved_at: i64)
    requires
        str_ok(version),
        session_wf(s),
    ensures
        toks_wf(file_toks(version, s, saved_at)),
{
    lemma_session_toks_wf(s);
    lemma_toks_wf_concat(seq![TokenV::S(version)], session_toks(s));
    lemma_toks_wf_concat(
        seq![TokenV::S(version)] + session_toks(s),
        seq![TokenV::U(i64_to_off(saved_at))],
    );
}

/// The round trip of the durable format: decoding the text written for
/// any well-formed envelope gives the envelope back, field for field.
pub proof fn lemma_file_round_trip(version: Seq<char>, s: SessionStateV, saved_at: i64)
    requires
        str_ok(version),
        session_wf(s),
    ensures
        spec_decode_file(spec_encode_file(version, s, saved_at)) == Option::Some(
            (version, s, saved_at),
        ),
{
    let toks = file_toks(version, s, saved_at);
    lemma_file_toks_wf(version, s, saved_at);
    crate::codec::lemma_toks_decode_encode(toks);
    assert(toks + Seq::<TokenV>::empty() =~= toks);
    lemma_rd_file(version, s, saved_at, Seq::empty());
}

// ---------------------------------------------------------------------------
// Snoc forms of the list writers, for the executable encoder loops
// ---------------------------------------------------------------------------

pub proof fn lemma_pairs_body_snoc(ps: Seq<(Seq<char>, Seq<char>)>, p: (Seq<char>, Seq<char>))
    ensures
        pairs_body_toks(ps.push(p)) == pairs_body_toks(ps) + seq![TokenV::S(p.0), TokenV::S(p.1)],
    decreases ps.len(),
{
    if ps.len() == 0 {
        assert(ps.push(p)[0] == p);
        assert(ps.push(p).drop_first() =~= Seq::<(Seq<char>, Seq<char>)>::empty());
        assert(ps =~= Seq::<(Seq<char>, Seq<char>)>::empty());
        let head = seq![TokenV::S(p.0), TokenV::S(p.1)];
        assert(pairs_body_toks(Seq::<(Seq<char>, Seq<char>)>::empty()) == Seq::<TokenV>::empty());
        assert(pairs_body_toks(ps.push(p)) == head + Seq::<TokenV>::empty());
        assert(head + Seq::<TokenV>::empty() =~= Seq::<TokenV>::empty() + head);
    } else {
        lemma_pairs_body_snoc(ps.drop_first(), p);
        assert(ps.push(p).drop_first() =~= ps.drop_first().push(p));
        assert(ps.push(p)[0] == ps[0]);
        let head = seq![TokenV::S(ps[0].0), TokenV::S(ps[0].1)];
        let tail = seq![TokenV::S(p.0), TokenV::S(p.1)];
        assert(pairs_body_toks(ps.push(p)) == head + (pairs_body_toks(ps.drop_first()) + tail));
        assert(head + (pairs_body_toks(ps.drop_first()) + tail) =~= (head + pairs_body_toks(
            ps.drop_first(),
        )) + tail);
    }
}

pub proof fn lemma_tasks_body_snoc(ts: Seq<TaskV>, t: TaskV)
    ensures
        tasks_body_toks(ts.push(t)) == tasks_body_toks(ts) + task_toks(t),
    decreases ts.len(),
{
    if ts.len() == 0 {
        assert(ts.push(t)[0] == t);
        assert(ts.push(t).drop_first() =~= Seq::<TaskV>::empty());
        assert(ts =~= Seq::<TaskV>::empty());
        assert(tasks_body_toks(Seq::<TaskV>::empty()) == Seq::<TokenV>::empty());
        assert(tasks_body_toks(ts.push(t)) == task_toks(t) + Seq::<TokenV>::empty());
        assert(task_toks(t) + Seq::<TokenV>::empty() =~= Seq::<TokenV>::empty() + task_toks(t));
    } else {
        lemma_tasks_body_snoc(ts.drop_first(), t);
        assert(ts.push(t).drop_first() =~= ts.drop_first().push(t));
        assert(ts.push(t)[0] == ts[0]);
        assert(tasks_body_toks(ts.push(t)) == task_toks(ts[0]) + (tasks_body_toks(ts.drop_first())
            + task_toks(t)));
        assert(task_toks(ts[0]) + (tasks_body_toks(ts.drop_first()) + task_toks(t)) =~= (task_toks(
            ts[0],
        ) + tasks_body_toks(ts.drop_first())) + task_toks(t));
    }
}

pub proof fn lemma_approvals_body_snoc(qs: Seq<ApprovalRequestV>, a: ApprovalRequestV)
    ensures
        approvals_body_toks(qs.push(a)) == approvals_body_toks(qs) + approval_toks(a),
    decreases qs.len(),
{
    if qs.len() == 0 {
        assert(qs.push(a)[0] == a);
        assert(qs.push(a).drop_first() =~= Seq::<ApprovalRequestV>::empty());
        assert(qs =~= Seq::<ApprovalRequestV>::empty());
        assert(approvals_body_toks(Seq::<ApprovalRequestV>::empty()) == Seq::<TokenV>::empty());
        assert(approvals_body_toks(qs.push(a)) == approval_toks(a) + Seq::<TokenV>::empty());
        assert(approval_toks(a) + Seq::<TokenV>::empty() =~= Seq::<TokenV>::empty() + approval_toks(
            a,
        ));
    } else {
        lemma_approvals_body_snoc(qs.drop_first(), a);
        assert(qs.push(a).drop_first() =~= qs.drop_first().push(a));
        assert(qs.push(a)[0] == qs[0]);
        assert(approvals_body_toks(qs.push(a)) == approval_toks(qs[0]) + (approvals_body_toks(
            qs.drop_first(),
        ) + approval_toks(a)));
        assert(approval_toks(qs[0]) + (approvals_body_toks(qs.drop_first()) + approval_toks(a))
            =~= (approval_toks(qs[0]) + approvals_body_toks(qs.drop_first())) + approval_toks(a));
    }
}

pub proof fn lemma_findings_body_snoc(fs: Seq<FindingV>, f: FindingV)
    ensures
        findings_body_toks(fs.push(f)) == findings_body_toks(fs) + finding_toks(f),
    decreases fs.len(),
{
    if fs.len() == 0 {
        assert(fs.push(f)[0] == f);
        assert(fs.push(f).drop_first() =~= Seq::<FindingV>::empty());
        assert(fs =~= Seq::<FindingV>::empty());
        assert(findings_body_toks(Seq::<FindingV>::empty()) == Seq::<TokenV>::empty());
        assert(findings_body_toks(fs.push(f)) == finding_toks(f) + Seq::<TokenV>::empty());
        assert(finding_toks(f) + Seq::<TokenV>::empty() =~= Seq::<TokenV>::empty() + finding_toks(
            f,
        ));
    } else {
        lemma_findings_body_snoc(fs.drop_first(), f);
        assert(fs.push(f).drop_first() =~= fs.drop_first().push(f));
        assert(fs.push(f)[0] == fs[0]);
        assert(findings_body_toks(fs.push(f)) == finding_toks(fs[0]) + (findings_body_toks(
            fs.drop_first(),
        ) + finding_toks(f)));
        assert(finding_toks(fs[0]) + (findings_body_toks(fs.drop_first()) + finding_toks(f)) =~= (
        finding_toks(fs[0]) + findings_body_toks(fs.drop_first())) + finding_toks(f));
    }
}

pub proof fn lemma_artifacts_body_snoc(arts: Seq<ArtifactV>, a: ArtifactV)
    ensures
        artifacts_body_toks(arts.push(a)) == artifacts_body_toks(arts) + artifact_toks(a),
    decreases arts.len(),
{
    if arts.len() == 0 {
        assert(arts.push(a)[0] == a);
        assert(arts.push(a).drop_first() =~= Seq::<ArtifactV>::empty());
        assert(arts =~= Seq::<ArtifactV>::empty());
        assert(artifacts_body_toks(Seq::<ArtifactV>::empty()) == Seq::<TokenV>::empty());
        assert(artifacts_body_toks(arts.push(a)) == artifact_toks(a) + Seq::<TokenV>::empty());
        assert(artifact_toks(a) + Seq::<TokenV>::empty() =~= Seq::<TokenV>::empty() + artifact_toks(
            a,
        ));
    } else {
        lemma_artifacts_body_snoc(arts.drop_first(), a);
        assert(arts.push(a).drop_first() =~= arts.drop_first().push(a));
        assert(arts.push(a)[0] == arts[0]);
        assert(artifacts_body_toks(arts.push(a)) == artifact_toks(arts[0]) + (artifacts_body_toks(
            arts.drop_first(),
        ) + artifact_toks(a)));
        assert(artifact_toks(arts[0]) + (artifacts_body_toks(arts.drop_first()) + artifact_toks(a))
            =~= (artifact_toks(arts[0]) + artifacts_body_toks(arts.drop_first())) + artifact_toks(
            a,
        ));
    }
}

// ---------------------------------------------------------------------------
// Executable scalar helpers
// ---------------------------------------------------------------------------

fn off_of_i64(n: i64) -> (r: u64)
    ensures
        r == i64_to_off(n),
{
    (((n as i128) + 0x8000_0000_0000_0000i128) as u64)
}

fn i64_of_off(u: u64) -> (r: i64)
    ensures
        r == off_to_i64(u),
{
    (((u as i128) - 0x8000_0000_0000_0000i128) as i64)
}

fn mode_tag_x(m: OperationalMode) -> (r: u64)
    ensures
        r == mode_tag(m),
{
    match m {
        OperationalMode::Offensive => 0,
        OperationalMode::Defensive => 1,
    }
}

fn mode_of_tag_x(t: u64) -> (r: Option<OperationalMode>)
    ensures
        r == mode_of_tag(t),
{
    if t == 0 {
        Option::Some(OperationalMode::Offensive)
    } else if t == 1 {
        Option::Some(OperationalMode::Defensive)
    } else {
        Option::None
    }
}

fn status_tag_x(s: SessionStatus) -> (r: u64)
    ensures
        r == status_tag(s),
{
    match s {
        SessionStatus::Active => 0,
        SessionStatus::Paused => 1,
        SessionStatus::Completed => 2,
        SessionStatus::Failed => 3,
    }
}

fn status_of_tag_x(t: u64) -> (r: Option<SessionStatus>)
    ensures
        r == status_of_tag(t),
{
    if t == 0 {
        Option::Some(SessionStatus::Active)
    } else if t == 1 {
        Option::Some(SessionStatus::Paused)
    } else if t == 2 {
        Option::Some(SessionStatus::Completed)
    } else if t == 3 {
        Option::Some(SessionStatus::Failed)
    } else {
        Option::None
    }
}

fn agent_tag_x(a: AgentType) -> (r: u64)
    ensures
        r == agent_tag(a),
{
    match a {
        AgentType::Planner => 0,
        AgentType::Operator => 1,
        AgentType::Navigator => 2,
        AgentType::Analyst => 3,
        AgentType::Scribe => 4,
    }
}

fn agent_of_tag_x(t: u64) -> (r: Option<AgentType>)
    ensures
        r == agent_of_tag(t),
{
    if t == 0 {
        Option::Some(AgentType::Planner)
    } else if t == 1 {
        Option::Some(AgentType::Operator)
    } else if t == 2 {
        Option::Some(AgentType::Navigator)
    } else if t == 3 {
        Option::Some(AgentType::Analyst)
    } else if t == 4 {
        Option::Some(AgentType::Scribe)
    } else {
        Option::None
    }
}

fn astate_tag_x(s: AgentState) -> (r: u64)
    ensures
        r == astate_tag(s),
{
    match s {
        AgentState::Idle => 0,
        AgentState::Planning => 1,
        AgentState::Executing => 2,
        AgentState::Analyzing => 3,
        AgentState::Writing => 4,
        AgentState::WaitingApproval => 5,
        AgentState::Error => 6,
    }
}

fn astate_of_tag_x(t: u64) -> (r: Option<AgentState>)
    ensures
        r == astate_of_tag(t),
{
    if t == 0 {
        Option::Some(AgentState::Idle)
    } else if t == 1 {
        Option::Some(AgentState::Planning)
    } else if t == 2 {
        Option::Some(AgentState::Executing)
    } else if t == 3 {
        Option::Some(AgentState::Analyzing)
    } else if t == 4 {
        Option::Some(AgentState::Writing)
    } else if t == 5 {
        Option::Some(AgentState::WaitingApproval)
    } else if t == 6 {
        Option::Some(AgentState::Error)
    } else {
        Option::None
    }
}

fn tstatus_tag_x(s: TaskStatus) -> (r: u64)
    ensures
        r == tstatus_tag(s),
{
    match s {
        TaskStatus::Queued => 0,
        TaskStatus::Running => 1,
        TaskStatus::Completed => 2,
        TaskStatus::Failed => 3,
        TaskStatus::Cancelled => 4,
    }
}

fn tstatus_of_tag_x(t: u64) -> (r: Option<TaskStatus>)
    ensures
        r == tstatus_of_tag(t),
{
    if t == 0 {
        Option::Some(TaskStatus::Queued)
    } else if t == 1 {
        Option::Some(TaskStatus::Running)
    } else if t == 2 {
        Option::Some(TaskStatus::Completed)
    } else if t == 3 {
        Option::Some(TaskStatus::Failed)
    } else if t == 4 {
        Option::Some(TaskStatus::Cancelled)
    } else {
        Option::None
    }
}

fn atype_tag_x(a: ActionType) -> (r: u64)
    ensures
        r == atype_tag(a),
{
    match a {
        ActionType::ToolExecution => 0,
        ActionType::BrowserNavigation => 1,
        ActionType::FormSubmission => 2,
        ActionType::FileWrite => 3,
        ActionType::RootCommand => 4,
    }
}

fn atype_of_tag_x(t: u64) -> (r: Option<ActionType>)
    ensures
        r == atype_of_tag(t),
{
    if t == 0 {
        Option::Some(ActionType::ToolExecution)
    } else if t == 1 {
        Option::Some(ActionType::BrowserNavigation)
    } else if t == 2 {
        Option::Some(ActionType::FormSubmission)
    } else if t == 3 {
        Option::Some(ActionType::FileWrite)
    } else if t == 4 {
        Option::Some(ActionType::RootCommand)
    } else {
        Option::None
    }
}

fn risk_tag_x(r: RiskLevel) -> (t: u64)
    ensures
        t == risk_tag(r),
{
    r.rank()
}

fn risk_of_tag_x(t: u64) -> (r: Option<RiskLevel>)
    ensures
        r == risk_of_tag(t),
{
    if t == 0 {
        Option::Some(RiskLevel::Low)
    } else if t == 1 {
        Option::Some(RiskLevel::Medium)
    } else if t == 2 {
        Option::Some(RiskLevel::High)
    } else if t == 3 {
        Option::Some(RiskLevel::Critical)
    } else {
        Option::None
    }
}

fn approval_tag_x(s: ApprovalStatus) -> (r: u64)
    ensures
        r == approval_tag(s),
{
    match s {
        ApprovalStatus::Pending => 0,
        ApprovalStatus::Approved => 1,
        ApprovalStatus::Denied => 2,
    }
}

fn approval_of_tag_x(t: u64) -> (r: Option<ApprovalStatus>)
    ensures
        r == approval_of_tag(t),
{
    if t == 0 {
        Option::Some(ApprovalStatus::Pending)
    } else if t == 1 {
        Option::Some(ApprovalStatus::Approved)
    } else if t == 2 {
        Option::Some(ApprovalStatus::Denied)
    } else {
        Option::None
    }
}

fn severity_tag_x(s: Severity) -> (r: u64)
    ensures
        r == severity_tag(s),
{
    s.rank()
}

fn severity_of_tag_x(t: u64) -> (r: Option<Severity>)
    ensures
        r == severity_of_tag(t),
{
    if t == 0 {
        Option::Some(Severity::Info)
    } else if t == 1 {
        Option::Some(Severity::Low)
    } else if t == 2 {
        Option::Some(Severity::Medium)
    } else if t == 3 {
        Option::Some(Severity::High)
    } else if t == 4 {
        Option::Some(Severity::Critical)
    } else {
        Option::None
    }
}

fn arttype_tag_x(a: ArtifactType) -> (r: u64)
    ensures
        r == arttype_tag(a),
{
    match a {
        ArtifactType::Report => 0,
        ArtifactType::Screenshot => 1,
        ArtifactType::Log => 2,
        ArtifactType::Data => 3,
        ArtifactType::Other => 4,
    }
}

fn arttype_of_tag_x(t: u64) -> (r: Option<ArtifactType>)
    ensures
        r == arttype_of_tag(t),
{
    if t == 0 {
        Option::Some(ArtifactType::Report)
    } else if t == 1 {
        Option::Some(ArtifactType::Screenshot)
    } else if t == 2 {
        Option::Some(ArtifactType::Log)
    } else if t == 3 {
        Option::Some(ArtifactType::Data)
    } else if t == 4 {
        Option::Some(ArtifactType::Other)
    } else {
        Option::None
    }
}

// ---------------------------------------------------------------------------
// Executable encoder
// ---------------------------------------------------------------------------

fn push_u64_tok(out: &mut Vec<Token>, n: u64)
    ensures
        toks_view(final(out)@) == toks_view(old(out)@) + seq![TokenV::U(n)],
{
    out.push(Token::U(n));
    proof {
        lemma_toks_view_snoc(old(out)@, Token::U(n));
        assert(toks_view(old(out)@).push(TokenV::U(n)) =~= toks_view(old(out)@) + seq![
            TokenV::U(n),
        ]);
    }
}

fn push_i64_tok(out: &mut Vec<Token>, n: i64)
    ensures
        toks_view(final(out)@) == toks_view(old(out)@) + seq![TokenV::U(i64_to_off(n))],
{
    let u = off_of_i64(n);
    push_u64_tok(out, u);
}

fn push_str_tok(out: &mut Vec<Token>, s: &String)
    ensures
        toks_view(final(out)@) == toks_view(old(out)@) + seq![TokenV::S(s@)],
{
    out.push(Token::S(s.clone()));
    proof {
        lemma_toks_view_snoc(old(out)@, Token::S(*s));
        assert(toks_view(old(out)@).push(TokenV::S(s@)) =~= toks_view(old(out)@) + seq![
            TokenV::S(s@),
        ]);
    }
}

fn push_opt_str_tok(out: &mut Vec<Token>, o: &Option<String>)
    ensures
        toks_view(final(out)@) == toks_view(old(out)@) + opt_str_toks(
            crate::state::opt_str_view(*o),
        ),
{
    match o {
        Option::None => {
            push_u64_tok(out, 0);
            proof {
                assert(toks_view(out@) =~= toks_view(old(out)@) + opt_str_toks(
                    crate::state::opt_str_view(*o),
                ));
            }
        },
        Option::Some(s) => {
            push_u64_tok(out, 1);
            push_str_tok(out, s);
            proof {
                assert(toks_view(out@) =~= toks_view(old(out)@) + opt_str_toks(
                    crate::state::opt_str_view(*o),
                ));
            }
        },
    }
}

fn push_opt_i64_tok(out: &mut Vec<Token>, o: &Option<i64>)
    ensures
        toks_view(final(out)@) == toks_view(old(out)@) + opt_i64_toks(*o),
{
    match o {
        Option::None => {
            push_u64_tok(out, 0);
            proof {
                assert(toks_view(out@) =~= toks_view(old(out)@) + opt_i64_toks(*o));
            }
        },
        Option::Some(n) => {
            push_u64_tok(out, 1);
            push_i64_tok(out, *n);
            proof {
                assert(toks_view(out@) =~= toks_view(old(out)@) + opt_i64_toks(*o));
            }
        },
    }
}

fn push_pairs_toks(out: &mut Vec<Token>, ps: &Vec<(String, String)>)
    ensures
        toks_view(final(out)@) == toks_view(old(out)@) + pairs_toks(
            crate::state::pairs_view(ps@),
        ),
{
    let n = ps.len();
    push_u64_tok(out, n as u64);
    proof {
        assert(crate::state::pairs_view(ps@).len() == ps@.len());
        assert(crate::state::pairs_view(ps@.take(0)) =~= Seq::<(Seq<char>, Seq<char>)>::empty());
        assert(pairs_body_toks(crate::state::pairs_view(ps@.take(0))) == Seq::<TokenV>::empty());
        assert(toks_view(out@) =~= toks_view(old(out)@) + seq![TokenV::U(ps@.len() as u64)]
            + pairs_body_toks(crate::state::pairs_view(ps@.take(0))));
    }
    let mut i: usize = 0;
    while i < n
        invariant
            i <= n,
            n == ps@.len(),
            toks_view(out@) == toks_view(old(out)@) + seq![TokenV::U(ps@.len() as u64)]
                + pairs_body_toks(crate::state::pairs_view(ps@.take(i as int))),
        decreases n - i,
    {
        let ghost prefix = crate::state::pairs_view(ps@.take(i as int));
        push_str_tok(out, &ps[i].0);
        push_str_tok(out, &ps[i].1);
        proof {
            let p = (ps@[i as int].0@, ps@[i as int].1@);
            lemma_pairs_body_snoc(prefix, p);
            assert(crate::state::pairs_view(ps@.take(i + 1)) =~= prefix.push(p));
            assert(toks_view(out@) =~= toks_view(old(out)@) + seq![TokenV::U(ps@.len() as u64)]
                + pairs_body_toks(crate::state::pairs_view(ps@.take(i + 1))));
        }
        i = i + 1;
    }
    proof {
        assert(ps@.take(n as int) =~= ps@);
        assert(toks_view(out@) =~= toks_view(old(out)@) + pairs_toks(
            crate::state::pairs_view(ps@),
        ));
    }
}

fn push_agent_toks(out: &mut Vec<Token>, a: &AgentStatus)
    ensures
        toks_view(final(out)@) == toks_view(old(out)@) + agent_toks(a@),
{
    push_u64_tok(out, agent_tag_x(a.agent));
    push_u64_tok(out, astate_tag_x(a.state));
    push_opt_str_tok(out, &a.current_task);
    push_i64_tok(out, a.last_update);
    proof {
        assert(toks_view(out@) =~= toks_view(old(out)@) + agent_toks(a@));
    }
}

fn push_task_toks(out: &mut Vec<Token>, t: &Task)
    ensures
        toks_view(final(out)@) == toks_view(old(out)@) + task_toks(t@),
{
    push_str_tok(out, &t.id);
    push_str_tok(out, &t.tool_name);
    push_str_tok(out, &t.target);
    push_pairs_toks(out, &t.args);
    push_u64_tok(out, tstatus_tag_x(t.status));
    push_i64_tok(out, t.created_at);
    push_opt_i64_tok(out, &t.started_at);
    push_opt_i64_tok(out, &t.completed_at);
    proof {
        assert(toks_view(out@) =~= toks_view(old(out)@) + task_toks(t@));
    }
}

fn push_tasks_toks(out: &mut Vec<Token>, ts: &Vec<Task>)
    ensures
        toks_view(final(out)@) == toks_view(old(out)@) + tasks_toks(
            ts@.map_values(|t: Task| t@),
        ),
{
    let n = ts.len();
    push_u64_tok(out, n as u64);
    proof {
        assert(ts@.map_values(|t: Task| t@).len() == ts@.len());
        assert(ts@.take(0).map_values(|t: Task| t@) =~= Seq::<TaskV>::empty());
        assert(tasks_body_toks(ts@.take(0).map_values(|t: Task| t@)) == Seq::<TokenV>::empty());
        assert(toks_view(out@) =~= toks_view(old(out)@) + seq![TokenV::U(ts@.len() as u64)]
            + tasks_body_toks(ts@.take(0).map_values(|t: Task| t@)));
    }
    let mut i: usize = 0;
    while i < n
        invariant
            i <= n,
            n == ts@.len(),
            toks_view(out@) == toks_view(old(out)@) + seq![TokenV::U(ts@.len() as u64)]
                + tasks_body_toks(ts@.take(i as int).map_values(|t: Task| t@)),
        decreases n - i,
    {
        let ghost prefix = ts@.take(i as int).map_values(|t: Task| t@);
        push_task_toks(out, &ts[i]);
        proof {
            lemma_tasks_body_snoc(prefix, ts@[i as int]@);
            assert(ts@.take(i + 1).map_values(|t: Task| t@) =~= prefix.push(ts@[i as int]@));
            assert(toks_view(out@) =~= toks_view(old(out)@) + seq![TokenV::U(ts@.len() as u64)]
                + tasks_body_toks(ts@.take(i + 1).map_values(|t: Task| t@)));
        }
        i = i + 1;
    }
    proof {
        assert(ts@.take(n as int) =~= ts@);
        assert(toks_view(out@) =~= toks_view(old(out)@) + tasks_toks(
            ts@.map_values(|t: Task| t@),
        ));
    }
}

fn push_action_toks(out: &mut Vec<Token>, a: &Action)
    ensures
        toks_view(final(out)@) == toks_view(old(out)@) + action_toks(a@),
{
    push_u64_tok(out, atype_tag_x(a.action_type));
    push_str_tok(out, &a.description);
    push_u64_tok(out, risk_tag_x(a.risk_level));
    push_str_tok(out, &a.details);
    proof {
        assert(toks_view(out@) =~= toks_view(old(out)@) + action_toks(a@));
    }
}

fn push_approval_toks(out: &mut Vec<Token>, a: &ApprovalRequest)
    ensures
        toks_view(final(out)@) == toks_view(old(out)@) + approval_toks(a@),
{
    push_str_tok(out, &a.id);
    push_action_toks(out, &a.action);
    push_str_tok(out, &a.reason);
    push_i64_tok(out, a.created_at);
    push_u64_tok(out, approval_tag_x(a.status));
    proof {
        assert(toks_view(out@) =~= toks_view(old(out)@) + approval_toks(a@));
    }
}

fn push_approvals_toks(out: &mut Vec<Token>, qs: &Vec<ApprovalRequest>)
    ensures
        toks_view(final(out)@) == toks_view(old(out)@) + approvals_toks(
            qs@.map_values(|a: ApprovalRequest| a@),
        ),
{
    let n = qs.len();
    push_u64_tok(out, n as u64);
    proof {
        assert(qs@.map_values(|a: ApprovalRequest| a@).len() == qs@.len());
        assert(qs@.take(0).map_values(|a: ApprovalRequest| a@) =~= Seq::<ApprovalRequestV>::empty());
        assert(approvals_body_toks(qs@.take(0).map_values(|a: ApprovalRequest| a@))
            == Seq::<TokenV>::empty());
        assert(toks_view(out@) =~= toks_view(old(out)@) + seq![TokenV::U(qs@.len() as u64)]
            + approvals_body_toks(qs@.take(0).map_values(|a: ApprovalRequest| a@)));
    }
    let mut i: usize = 0;
    while i < n
        invariant
            i <= n,
            n == qs@.len(),
            toks_view(out@) == toks_view(old(out)@) + seq![TokenV::U(qs@.len() as u64)]
                + approvals_body_toks(qs@.take(i as int).map_values(|a: ApprovalRequest| a@)),
        decreases n - i,
    {
        let ghost prefix = qs@.take(i as int).map_values(|a: ApprovalRequest| a@);
        push_approval_toks(out, &qs[i]);
        proof {
            lemma_approvals_body_snoc(prefix, qs@[i as int]@);
            assert(qs@.take(i + 1).map_values(|a: ApprovalRequest| a@) =~= prefix.push(
                qs@[i as int]@,
            ));
            assert(toks_view(out@) =~= toks_view(old(out)@) + seq![TokenV::U(qs@.len() as u64)]
                + approvals_body_toks(qs@.take(i + 1).map_values(|a: ApprovalRequest| a@)));
        }
        i = i + 1;
    }
    proof {
        assert(qs@.take(n as int) =~= qs@);
        assert(toks_view(out@) =~= toks_view(old(out)@) + approvals_toks(
            qs@.map_values(|a: ApprovalRequest| a@),
        ));
    }
}

fn push_finding_toks(out: &mut Vec<Token>, f: &Finding)
    ensures
        toks_view(final(out)@) == toks_view(old(out)@) + finding_toks(f@),
{
    push_str_tok(out, &f.id);
    push_str_tok(out, &f.title);
    push_u64_tok(out, severity_tag_x(f.severity));
    push_str_tok(out, &f.description);
    push_str_tok(out, &f.tool_source);
    push_i64_tok(out, f.discovered_at);
    push_str_tok(out, &f.details);
    proof {
        assert(toks_view(out@) =~= toks_view(old(out)@) + finding_toks(f@));
    }
}

fn push_findings_toks(out: &mut Vec<Token>, fs: &Vec<Finding>)
    ensures
        toks_view(final(out)@) == toks_view(old(out)@) + findings_toks(
            fs@.map_values(|f: Finding| f@),
        ),
{
    let n = fs.len();
    push_u64_tok(out, n as u64);
    proof {
        assert(fs@.map_values(|f: Finding| f@).len() == fs@.len());
        assert(fs@.take(0).map_values(|f: Finding| f@) =~= Seq::<FindingV>::empty());
        assert(findings_body_toks(fs@.take(0).map_values(|f: Finding| f@))
            == Seq::<TokenV>::empty());
        assert(toks_view(out@) =~= toks_view(old(out)@) + seq![TokenV::U(fs@.len() as u64)]
            + findings_body_toks(fs@.take(0).map_values(|f: Finding| f@)));
    }
    let mut i: usize = 0;
    while i < n
        invariant
            i <= n,
            n == fs@.len(),
            toks_view(out@) == toks_view(old(out)@) + seq![TokenV::U(fs@.len() as u64)]
                + findings_body_toks(fs@.take(i as int).map_values(|f: Finding| f@)),
        decreases n - i,
    {
        let ghost prefix = fs@.take(i as int).map_values(|f: Finding| f@);
        push_finding_toks(out, &fs[i]);
        proof {
            lemma_findings_body_snoc(prefix, fs@[i as int]@);
            assert(fs@.take(i + 1).map_values(|f: Finding| f@) =~= prefix.push(fs@[i as int]@));
            assert(toks_view(out@) =~= toks_view(old(out)@) + seq![TokenV::U(fs@.len() as u64)]
                + findings_body_toks(fs@.take(i + 1).map_values(|f: Finding| f@)));
        }
        i = i + 1;
    }
    proof {
        assert(fs@.take(n as int) =~= fs@);
        assert(toks_view(out@) =~= toks_view(old(out)@) + findings_toks(
            fs@.map_values(|f: Finding| f@),
        ));
    }
}

fn push_artifact_toks(out: &mut Vec<Token>, a: &Artifact)
    ensures
        toks_view(final(out)@) == toks_view(old(out)@) + artifact_toks(a@),
{
    push_str_tok(out, &a.id);
    push_u64_tok(out, arttype_tag_x(a.artifact_type));
    push_str_tok(out, &a.name);
    push_str_tok(out, &a.path);
    push_i64_tok(out, a.created_at);
    push_pairs_toks(out, &a.metadata);
    proof {
        assert(toks_view(out@) =~= toks_view(old(out)@) + artifact_toks(a@));
    }
}

fn push_artifacts_toks(out: &mut Vec<Token>, arts: &Vec<Artifact>)
    ensures
        toks_view(final(out)@) == toks_view(old(out)@) + artifacts_toks(
            arts@.map_values(|a: Artifact| a@),
        ),
{
    let n = arts.len();
    push_u64_tok(out, n as u64);
    proof {
        assert(arts@.map_values(|a: Artifact| a@).len() == arts@.len());
        assert(arts@.take(0).map_values(|a: Artifact| a@) =~= Seq::<ArtifactV>::empty());
        assert(artifacts_body_toks(arts@.take(0).map_values(|a: Artifact| a@))
            == Seq::<TokenV>::empty());
        assert(toks_view(out@) =~= toks_view(old(out)@) + seq![TokenV::U(arts@.len() as u64)]
            + artifacts_body_toks(arts@.take(0).map_values(|a: Artifact| a@)));
    }
    let mut i: usize = 0;
    while i < n
        invariant
            i <= n,
            n == arts@.len(),
            toks_view(out@) == toks_view(old(out)@) + seq![TokenV::U(arts@.len() as u64)]
                + artifacts_body_toks(arts@.take(i as int).map_values(|a: Artifact| a@)),
        decreases n - i,
    {
        let ghost prefix = arts@.take(i as int).map_values(|a: Artifact| a@);
        push_artifact_toks(out, &arts[i]);
        proof {
            lemma_artifacts_body_snoc(prefix, arts@[i as int]@);
            assert(arts@.take(i + 1).map_values(|a: Artifact| a@) =~= prefix.push(
                arts@[i as int]@,
            ));
            assert(toks_view(out@) =~= toks_view(old(out)@) + seq![TokenV::U(arts@.len() as u64)]
                + artifacts_body_toks(arts@.take(i + 1).map_values(|a: Artifact| a@)));
        }
        i = i + 1;
    }
    proof {
        assert(arts@.take(n as int) =~= arts@);
        assert(toks_view(out@) =~= toks_view(old(out)@) + artifacts_toks(
            arts@.map_values(|a: Artifact| a@),
        ));
    }
}

#[verifier::rlimit(100)]
fn push_session_toks(out: &mut Vec<Token>, s: &SessionState)
    ensures
        toks_view(final(out)@) == toks_view(old(out)@) + session_toks(s@),
{
    let ghost base = toks_view(old(out)@);
    push_str_tok(out, &s.id);
    push_str_tok(out, &s.name);
    push_u64_tok(out, status_tag_x(s.status));
    push_u64_tok(out, mode_tag_x(s.mode));
    push_i64_tok(out, s.created_at);
    push_i64_tok(out, s.updated_at);
    proof {
        assert(toks_view(out@) == base + session_head_toks(s@)) by {
            assert(toks_view(out@) =~= base + session_head_toks(s@));
        }
    }
    let ghost mid = toks_view(out@);
    push_tasks_toks(out, &s.task_queue);
    push_approvals_toks(out, &s.approval_queue);
    let ghost pre_table = toks_view(out@);
    push_agent_toks(out, &s.agent_states.planner);
    push_agent_toks(out, &s.agent_states.operator);
    push_agent_toks(out, &s.agent_states.navigator);
    push_agent_toks(out, &s.agent_states.analyst);
    push_agent_toks(out, &s.agent_states.scribe);
    proof {
        assert(toks_view(out@) == pre_table + table_toks(s@.agent_states)) by {
            assert(toks_view(out@) =~= pre_table + table_toks(s@.agent_states));
        }
    }
    push_findings_toks(out, &s.findings);
    push_artifacts_toks(out, &s.artifacts);
    push_pairs_toks(out, &s.metadata);
    proof {
        assert(toks_view(out@) == mid + session_tail_toks(s@)) by {
            assert(toks_view(out@) =~= mid + session_tail_toks(s@));
        }
        assert(toks_view(out@) == base + session_toks(s@)) by {
            assert(mid + session_tail_toks(s@) =~= base + session_toks(s@));
        }
    }
}

/// Encodes the envelope `{version, session snapshot, save instant}` as
/// the durable file text.
pub fn encode_session_file(version: &str, session: &SessionState, saved_at: i64) -> (text: String)
    ensures
        text@ == spec_encode_file(version@, session@, saved_at),
{
    let mut toks: Vec<Token> = Vec::new();
    let v: String = version.to_owned();
    proof {
        assert(toks_view(toks@) =~= Seq::<TokenV>::empty());
    }
    push_str_tok(&mut toks, &v);
    push_session_toks(&mut toks, session);
    push_i64_tok(&mut toks, saved_at);
    proof {
        assert(toks_view(toks@) =~= file_toks(version@, session@, saved_at));
    }
    encode_tokens(&toks)
}

// ---------------------------------------------------------------------------
// Executable decoder
// ---------------------------------------------------------------------------

fn take_u64(toks: &Vec<Token>, pos: usize) -> (r: Result<(u64, usize), CoreError>)
    requires
        pos <= toks@.len(),
    ensures
        match r {
            Ok(v) => rd_u64(toks_view(toks@).skip(pos as int)) == Option::Some(
                (v.0, toks_view(toks@).skip(v.1 as int)),
            ) && pos < v.1 <= toks@.len(),
            Err(e) => rd_u64(toks_view(toks@).skip(pos as int)) is None && e
                == CoreError::DecodeError,
        },
{
    let ghost tv = toks_view(toks@);
    proof {
        assert(tv.len() == toks@.len());
    }
    if pos < toks.len() {
        proof {
            assert(tv.skip(pos as int)[0] == tv[pos as int]);
            assert(tv[pos as int] == toks@[pos as int]@);
            assert(tv.skip(pos as int).drop_first() =~= tv.skip(pos as int + 1));
        }
        match &toks[pos] {
            Token::U(n) => Ok((*n, pos + 1)),
            Token::S(_) => Err(CoreError::DecodeError),
        }
    } else {
        proof {
            assert(tv.skip(pos as int).len() == 0);
        }
        Err(CoreError::DecodeError)
    }
}

fn take_str(toks: &Vec<Token>, pos: usize) -> (r: Result<(String, usize), CoreError>)
    requires
        pos <= toks@.len(),
    ensures
        match r {
            Ok(v) => rd_str(toks_view(toks@).skip(pos as int)) == Option::Some(
                (v.0@, toks_view(toks@).skip(v.1 as int)),
            ) && pos < v.1 <= toks@.len(),
            Err(e) => rd_str(toks_view(toks@).skip(pos as int)) is None && e
                == CoreError::DecodeError,
        },
{
    let ghost tv = toks_view(toks@);
    proof {
        assert(tv.len() == toks@.len());
    }
    if pos < toks.len() {
        proof {
            assert(tv.skip(pos as int)[0] == tv[pos as int]);
            assert(tv[pos as int] == toks@[pos as int]@);
            assert(tv.skip(pos as int).drop_first() =~= tv.skip(pos as int + 1));
        }
        match &toks[pos] {
            Token::S(s) => Ok((s.clone(), pos + 1)),
            Token::U(_) => Err(CoreError::DecodeError),
        }
    } else {
        proof {
            assert(tv.skip(pos as int).len() == 0);
        }
        Err(CoreError::DecodeError)
    }
}

fn take_i64(toks: &Vec<Token>, pos: usize) -> (r: Result<(i64, usize), CoreError>)
    requires
        pos <= toks@.len(),
    ensures
        match r {
            Ok(v) => rd_i64(toks_view(toks@).skip(pos as int)) == Option::Some(
                (v.0, toks_view(toks@).skip(v.1 as int)),
            ) && pos < v.1 <= toks@.len(),
            Err(e) => rd_i64(toks_view(toks@).skip(pos as int)) is None && e
                == CoreError::DecodeError,
        },
{
    match take_u64(toks, pos) {
        Ok((u, p2)) => Ok((i64_of_off(u), p2)),
        Err(e) => Err(e),
    }
}

fn take_opt_str(toks: &Vec<Token>, pos: usize) -> (r: Result<(Option<String>, usize), CoreError>)
    requires
        pos <= toks@.len(),
    ensures
        match r {
            Ok(v) => rd_opt_str(toks_view(toks@).skip(pos as int)) == Option::Some(
                (crate::state::opt_str_view(v.0), toks_view(toks@).skip(v.1 as int)),
            ) && pos < v.1 <= toks@.len(),
            Err(e) => rd_opt_str(toks_view(toks@).skip(pos as int)) is None && e
                == CoreError::DecodeError,
        },
{
    let (tag, p1) = match take_u64(toks, pos) {
        Ok(v) => v,
        Err(e) => {
            return Err(e);
        },
    };
    if tag == 0 {
        Ok((Option::None, p1))
    } else if tag == 1 {
        match take_str(toks, p1) {
            Ok((s, p2)) => Ok((Option::Some(s), p2)),
            Err(e) => Err(e),
        }
    } else {
        Err(CoreError::DecodeError)
    }
}

fn take_opt_i64(toks: &Vec<Token>, pos: usize) -> (r: Result<(Option<i64>, usize), CoreError>)
    requires
        pos <= toks@.len(),
    ensures
        match r {
            Ok(v) => rd_opt_i64(toks_view(toks@).skip(pos as int)) == Option::Some(
                (v.0, toks_view(toks@).skip(v.1 as int)),
            ) && pos < v.1 <= toks@.len(),
            Err(e) => rd_opt_i64(toks_view(toks@).skip(pos as int)) is None && e
                == CoreError::DecodeError,
        },
{
    let (tag, p1) = match take_u64(toks, pos) {
        Ok(v) => v,
        Err(e) => {
            return Err(e);
        },
    };
    if tag == 0 {
        Ok((Option::None, p1))
    } else if tag == 1 {
        match take_i64(toks, p1) {
            Ok((n, p2)) => Ok((Option::Some(n), p2)),
            Err(e) => Err(e),
        }
    } else {
        Err(CoreError::DecodeError)
    }
}

fn take_pairs(toks: &Vec<Token>, pos: usize) -> (r: Result<(Vec<(String, String)>, usize), CoreError>)
    requires
        pos <= toks@.len(),
    ensures
        match r {
            Ok(v) => rd_pairs(toks_view(toks@).skip(pos as int)) == Option::Some(
                (crate::state::pairs_view(v.0@), toks_view(toks@).skip(v.1 as int)),
            ) && pos < v.1 <= toks@.len(),
            Err(e) => rd_pairs(toks_view(toks@).skip(pos as int)) is None && e
                == CoreError::DecodeError,
        },
{
    let ghost tv = toks_view(toks@);
    let (n, start) = match take_u64(toks, pos) {
        Ok(v) => v,
        Err(e) => {
            return Err(e);
        },
    };
    let mut acc: Vec<(String, String)> = Vec::new();
    let mut cur: usize = start;
    let mut k: u64 = 0;
    proof {
        assert(crate::state::pairs_view(acc@) =~= Seq::<(Seq<char>, Seq<char>)>::empty());
    }
    while k < n
        invariant
            pos <= toks@.len(),
            start <= cur <= toks@.len(),
            k <= n,
            k as int == acc@.len(),
            tv == toks_view(toks@),
            rd_u64(tv.skip(pos as int)) == Option::Some((n, tv.skip(start as int))),
            pos < start <= toks@.len(),
            rd_pairs_body(tv.skip(start as int), n as nat) == (match rd_pairs_body(
                tv.skip(cur as int),
                (n - k) as nat,
            ) {
                Option::Some(p) => Option::Some(
                    ((crate::state::pairs_view(acc@) + p.0, p.1)),
                ),
                Option::None => Option::None::<(Seq<(Seq<char>, Seq<char>)>, Seq<TokenV>)>,
            }),
        decreases n - k,
    {
        let ghost prev = crate::state::pairs_view(acc@);
        let (a, p1) = match take_str(toks, cur) {
            Ok(v) => v,
            Err(e) => {
                return Err(e);
            },
        };
        let (b, p2) = match take_str(toks, p1) {
            Ok(v) => v,
            Err(e) => {
                return Err(e);
            },
        };
        proof {
            assert(crate::state::pairs_view(acc@.push((a, b))) =~= prev.push((a@, b@)));
        }
        acc.push((a, b));
        cur = p2;
        k = k + 1;
        proof {
            assert forall|s: Seq<(Seq<char>, Seq<char>)>|
                prev + (seq![(a@, b@)] + s) == crate::state::pairs_view(acc@) + s by {
                assert(prev + (seq![(a@, b@)] + s) =~= prev.push((a@, b@)) + s);
            }
        }
    }
    proof {
        assert(rd_pairs_body(tv.skip(cur as int), 0) == Option::Some(
            (Seq::<(Seq<char>, Seq<char>)>::empty(), tv.skip(cur as int)),
        ));
        assert(crate::state::pairs_view(acc@) + Seq::<(Seq<char>, Seq<char>)>::empty()
            =~= crate::state::pairs_view(acc@));
    }
    Ok((acc, cur))
}

fn take_agent(toks: &Vec<Token>, pos: usize) -> (r: Result<(AgentStatus, usize), CoreError>)
    requires
        pos <= toks@.len(),
    ensures
        match r {
            Ok(v) => rd_agent(toks_view(toks@).skip(pos as int)) == Option::Some(
                (v.0@, toks_view(toks@).skip(v.1 as int)),
            ) && pos <= v.1 <= toks@.len(),
            Err(e) => rd_agent(toks_view(toks@).skip(pos as int)) is None && e
                == CoreError::DecodeError,
        },
{
    let (at, p1) = match take_u64(toks, pos) {
        Ok(v) => v,
        Err(e) => {
            return Err(e);
        },
    };
    let agent = match agent_of_tag_x(at) {
        Option::Some(a) => a,
        Option::None => {
            return Err(CoreError::DecodeError);
        },
    };
    let (st, p2) = match take_u64(toks, p1) {
        Ok(v) => v,
        Err(e) => {
            return Err(e);
        },
    };
    let state = match astate_of_tag_x(st) {
        Option::Some(s) => s,
        Option::None => {
            return Err(CoreError::DecodeError);
        },
    };
    let (task, p3) = match take_opt_str(toks, p2) {
        Ok(v) => v,
        Err(e) => {
            return Err(e);
        },
    };
    let (lu, p4) = match take_i64(toks, p3) {
        Ok(v) => v,
        Err(e) => {
            return Err(e);
        },
    };
    let res = AgentStatus { agent, state, current_task: task, last_update: lu };
    proof {
        assert(res@ =~~= AgentStatusV {
            agent,
            state,
            current_task: crate::state::opt_str_view(res.current_task),
            last_update: lu,
        });
    }
    Ok((res, p4))
}

fn take_table(toks: &Vec<Token>, pos: usize) -> (r: Result<(AgentTable, usize), CoreError>)
    requires
        pos <= toks@.len(),
    ensures
        match r {
            Ok(v) => rd_table(toks_view(toks@).skip(pos as int)) == Option::Some(
                (v.0@, toks_view(toks@).skip(v.1 as int)),
            ) && pos <= v.1 <= toks@.len(),
            Err(e) => rd_table(toks_view(toks@).skip(pos as int)) is None && e
                == CoreError::DecodeError,
        },
{
    let (planner, p1) = match take_agent(toks, pos) {
        Ok(v) => v,
        Err(e) => {
            return Err(e);
        },
    };
    let (operator, p2) = match take_agent(toks, p1) {
        Ok(v) => v,
        Err(e) => {
            return Err(e);
        },
    };
    let (navigator, p3) = match take_agent(toks, p2) {
        Ok(v) => v,
        Err(e) => {
            return Err(e);
        },
    };
    let (analyst, p4) = match take_agent(toks, p3) {
        Ok(v) => v,
        Err(e) => {
            return Err(e);
        },
    };
    let (scribe, p5) = match take_agent(toks, p4) {
        Ok(v) => v,
        Err(e) => {
            return Err(e);
        },
    };
    let res = AgentTable { planner, operator, navigator, analyst, scribe };
    proof {
        assert(res@ =~~= AgentTableV {
            planner: res.planner@,
            operator: res.operator@,
            navigator: res.navigator@,
            analyst: res.analyst@,
            scribe: res.scribe@,
        });
    }
    Ok((res, p5))
}

#[verifier::rlimit(100)]
fn take_task(toks: &Vec<Token>, pos: usize) -> (r: Result<(Task, usize), CoreError>)
    requires
        pos <= toks@.len(),
    ensures
        match r {
            Ok(v) => rd_task(toks_view(toks@).skip(pos as int)) == Option::Some(
                (v.0@, toks_view(toks@).skip(v.1 as int)),
            ) && pos <= v.1 <= toks@.len(),
            Err(e) => rd_task(toks_view(toks@).skip(pos as int)) is None && e
                == CoreError::DecodeError,
        },
{
    let (id, p1) = match take_str(toks, pos) {
        Ok(v) => v,
        Err(e) => {
            return Err(e);
        },
    };
    let (tool_name, p2) = match take_str(toks, p1) {
        Ok(v) => v,
        Err(e) => {
            return Err(e);
        },
    };
    let (target, p3) = match take_str(toks, p2) {
        Ok(v) => v,
        Err(e) => {
            return Err(e);
        },
    };
    let (args, p4) = match take_pairs(toks, p3) {
        Ok(v) => v,
        Err(e) => {
            return Err(e);
        },
    };
    let (st, p5) = match take_u64(toks, p4) {
        Ok(v) => v,
        Err(e) => {
            return Err(e);
        },
    };
    let status = match tstatus_of_tag_x(st) {
        Option::Some(s) => s,
        Option::None => {
            return Err(CoreError::DecodeError);
        },
    };
    let (created, p6) = match take_i64(toks, p5) {
        Ok(v) => v,
        Err(e) => {
            return Err(e);
        },
    };
    let (started, p7) = match take_opt_i64(toks, p6) {
        Ok(v) => v,
        Err(e) => {
            return Err(e);
        },
    };
    let (completed, p8) = match take_opt_i64(toks, p7) {
        Ok(v) => v,
        Err(e) => {
            return Err(e);
        },
    };
    let res = Task {
        id,
        tool_name,
        target,
        args,
        status,
        created_at: created,
        started_at: started,
        completed_at: completed,
    };
    proof {
        assert(res@ =~~= TaskV {
            id: res.id@,
            tool_name: res.tool_name@,
            target: res.target@,
            args: crate::state::pairs_view(res.args@),
            status,
            created_at: created,
            started_at: started,
            completed_at: completed,
        });
    }
    Ok((res, p8))
}

fn take_tasks(toks: &Vec<Token>, pos: usize) -> (r: Result<(Vec<Task>, usize), CoreError>)
    requires
        pos <= toks@.len(),
    ensures
        match r {
            Ok(v) => rd_tasks(toks_view(toks@).skip(pos as int)) == Option::Some(
                (v.0@.map_values(|t: Task| t@), toks_view(toks@).skip(v.1 as int)),
            ) && pos < v.1 <= toks@.len(),
            Err(e) => rd_tasks(toks_view(toks@).skip(pos as int)) is None && e
                == CoreError::DecodeError,
        },
{
    let ghost tv = toks_view(toks@);
    let (n, start) = match take_u64(toks, pos) {
        Ok(v) => v,
        Err(e) => {
            return Err(e);
        },
    };
    let mut acc: Vec<Task> = Vec::new();
    let mut cur: usize = start;
    let mut k: u64 = 0;
    proof {
        assert(acc@.map_values(|t: Task| t@) =~= Seq::<TaskV>::empty());
    }
    while k < n
        invariant
            pos <= toks@.len(),
            start <= cur <= toks@.len(),
            k <= n,
            k as int == acc@.len(),
            tv == toks_view(toks@),
            rd_u64(tv.skip(pos as int)) == Option::Some((n, tv.skip(start as int))),
            pos < start <= toks@.len(),
            rd_tasks_body(tv.skip(start as int), n as nat) == (match rd_tasks_body(
                tv.skip(cur as int),
                (n - k) as nat,
            ) {
                Option::Some(p) => Option::Some(
                    ((acc@.map_values(|t: Task| t@) + p.0, p.1)),
                ),
                Option::None => Option::None::<(Seq<TaskV>, Seq<TokenV>)>,
            }),
        decreases n - k,
    {
        let ghost prev = acc@.map_values(|t: Task| t@);
        let (t, p1) = match take_task(toks, cur) {
            Ok(v) => v,
            Err(e) => {
                return Err(e);
            },
        };
        proof {
            assert(acc@.push(t).map_values(|x: Task| x@) =~= prev.push(t@));
        }
        let ghost tview = t@;
        acc.push(t);
        cur = p1;
        k = k + 1;
        proof {
            assert forall|s: Seq<TaskV>|
                prev + (seq![tview] + s) == acc@.map_values(|x: Task| x@) + s by {
                assert(prev + (seq![tview] + s) =~= prev.push(tview) + s);
            }
        }
    }
    proof {
        assert(rd_tasks_body(tv.skip(cur as int), 0) == Option::Some(
            (Seq::<TaskV>::empty(), tv.skip(cur as int)),
        ));
        assert(acc@.map_values(|t: Task| t@) + Seq::<TaskV>::empty() =~= acc@.map_values(
            |t: Task| t@,
        ));
    }
    Ok((acc, cur))
}

fn take_action(toks: &Vec<Token>, pos: usize) -> (r: Result<(Action, usize), CoreError>)
    requires
        pos <= toks@.len(),
    ensures
        match r {
            Ok(v) => rd_action(toks_view(toks@).skip(pos as int)) == Option::Some(
                (v.0@, toks_view(toks@).skip(v.1 as int)),
            ) && pos <= v.1 <= toks@.len(),
            Err(e) => rd_action(toks_view(toks@).skip(pos as int)) is None && e
                == CoreError::DecodeError,
        },
{
    let (at, p1) = match take_u64(toks, pos) {
        Ok(v) => v,
        Err(e) => {
            return Err(e);
        },
    };
    let action_type = match atype_of_tag_x(at) {
        Option::Some(a) => a,
        Option::None => {
            return Err(CoreError::DecodeError);
        },
    };
    let (description, p2) = match take_str(toks, p1) {
        Ok(v) => v,
        Err(e) => {
            return Err(e);
        },
    };
    let (rt, p3) = match take_u64(toks, p2) {
        Ok(v) => v,
        Err(e) => {
            return Err(e);
        },
    };
    let risk_level = match risk_of_tag_x(rt) {
        Option::Some(rl) => rl,
        Option::None => {
            return Err(CoreError::DecodeError);
        },
    };
    let (details, p4) = match take_str(toks, p3) {
        Ok(v) => v,
        Err(e) => {
            return Err(e);
        },
    };
    let res = Action { action_type, description, risk_level, details };
    proof {
        assert(res@ =~~= ActionV {
            action_type,
            description: res.description@,
            risk_level,
            details: res.details@,
        });
    }
    Ok((res, p4))
}

fn take_approval(toks: &Vec<Token>, pos: usize) -> (r: Result<(ApprovalRequest, usize), CoreError>)
    requires
        pos <= toks@.len(),
    ensures
        match r {
            Ok(v) => rd_approval(toks_view(toks@).skip(pos as int)) == Option::Some(
                (v.0@, toks_view(toks@).skip(v.1 as int)),
            ) && pos <= v.1 <= toks@.len(),
            Err(e) => rd_approval(toks_view(toks@).skip(pos as int)) is None && e
                == CoreError::DecodeError,
        },
{
    let (id, p1) = match take_str(toks, pos) {
        Ok(v) => v,
        Err(e) => {
            return Err(e);
        },
    };
    let (action, p2) = match take_action(toks, p1) {
        Ok(v) => v,
        Err(e) => {
            return Err(e);
        },
    };
    let (reason, p3) = match take_str(toks, p2) {
        Ok(v) => v,
        Err(e) => {
            return Err(e);
        },
    };
    let (created, p4) = match take_i64(toks, p3) {
        Ok(v) => v,
        Err(e) => {
            return Err(e);
        },
    };
    let (st, p5) = match take_u64(toks, p4) {
        Ok(v) => v,
        Err(e) => {
            return Err(e);
        },
    };
    let status = match approval_of_tag_x(st) {
        Option::Some(s) => s,
        Option::None => {
            return Err(CoreError::DecodeError);
        },
    };
    let res = ApprovalRequest { id, action, reason, created_at: created, status };
    proof {
        assert(res@ =~~= ApprovalRequestV {
            id: res.id@,
            action: res.action@,
            reason: res.reason@,
            created_at: created,
            status,
        });
    }
    Ok((res, p5))
}

fn take_approvals(toks: &Vec<Token>, pos: usize) -> (r: Result<
    (Vec<ApprovalRequest>, usize),
    CoreError,
>)
    requires
        pos <= toks@.len(),
    ensures
        match r {
            Ok(v) => rd_approvals(toks_view(toks@).skip(pos as int)) == Option::Some(
                (v.0@.map_values(|a: ApprovalRequest| a@), toks_view(toks@).skip(v.1 as int)),
            ) && pos < v.1 <= toks@.len(),
            Err(e) => rd_approvals(toks_view(toks@).skip(pos as int)) is None && e
                == CoreError::DecodeError,
        },
{
    let ghost tv = toks_view(toks@);
    let (n, start) = match take_u64(toks, pos) {
        Ok(v) => v,
        Err(e) => {
            return Err(e);
        },
    };
    let mut acc: Vec<ApprovalRequest> = Vec::new();
    let mut cur: usize = start;
    let mut k: u64 = 0;
    proof {
        assert(acc@.map_values(|a: ApprovalRequest| a@) =~= Seq::<ApprovalRequestV>::empty());
    }
    while k < n
        invariant
            pos <= toks@.len(),
            start <= cur <= toks@.len(),
            k <= n,
            k as int == acc@.len(),
            tv == toks_view(toks@),
            rd_u64(tv.skip(pos as int)) == Option::Some((n, tv.skip(start as int))),
            pos < start <= toks@.len(),
            rd_approvals_body(tv.skip(start as int), n as nat) == (match rd_approvals_body(
                tv.skip(cur as int),
                (n - k) as nat,
            ) {
                Option::Some(p) => Option::Some(
                    ((acc@.map_values(|a: ApprovalRequest| a@) + p.0, p.1)),
                ),
                Option::None => Option::None::<(Seq<ApprovalRequestV>, Seq<TokenV>)>,
            }),
        decreases n - k,
    {
        let ghost prev = acc@.map_values(|a: ApprovalRequest| a@);
        let (a, p1) = match take_approval(toks, cur) {
            Ok(v) => v,
            Err(e) => {
                return Err(e);
            },
        };
        proof {
            assert(acc@.push(a).map_values(|x: ApprovalRequest| x@) =~= prev.push(a@));
        }
        let ghost aview = a@;
        acc.push(a);
        cur = p1;
        k = k + 1;
        proof {
            assert forall|s: Seq<ApprovalRequestV>|
                prev + (seq![aview] + s) == acc@.map_values(|x: ApprovalRequest| x@) + s by {
                assert(prev + (seq![aview] + s) =~= prev.push(aview) + s);
            }
        }
    }
    proof {
        assert(rd_approvals_body(tv.skip(cur as int), 0) == Option::Some(
            (Seq::<ApprovalRequestV>::empty(), tv.skip(cur as int)),
        ));
        assert(acc@.map_values(|a: ApprovalRequest| a@) + Seq::<ApprovalRequestV>::empty()
            =~= acc@.map_values(|a: ApprovalRequest| a@));
    }
    Ok((acc, cur))
}

#[verifier::rlimit(100)]
fn take_finding(toks: &Vec<Token>, pos: usize) -> (r: Result<(Finding, usize), CoreError>)
    requires
        pos <= toks@.len(),
    ensures
        match r {
            Ok(v) => rd_finding(toks_view(toks@).skip(pos as int)) == Option::Some(
                (v.0@, toks_view(toks@).skip(v.1 as int)),
            ) && pos <= v.1 <= toks@.len(),
            Err(e) => rd_finding(toks_view(toks@).skip(pos as int)) is None && e
                == CoreError::DecodeError,
        },
{
    let (id, p1) = match take_str(toks, pos) {
        Ok(v) => v,
        Err(e) => {
            return Err(e);
        },
    };
    let (title, p2) = match take_str(toks, p1) {
        Ok(v) => v,
        Err(e) => {
            return Err(e);
        },
    };
    let (sv, p3) = match take_u64(toks, p2) {
        Ok(v) => v,
        Err(e) => {
            return Err(e);
        },
    };
    let severity = match severity_of_tag_x(sv) {
        Option::Some(s) => s,
        Option::None => {
            return Err(CoreError::DecodeError);
        },
    };
    let (description, p4) = match take_str(toks, p3) {
        Ok(v) => v,
        Err(e) => {
            return Err(e);
        },
    };
    let (tool_source, p5) = match take_str(toks, p4) {
        Ok(v) => v,
        Err(e) => {
            return Err(e);
        },
    };
    let (discovered, p6) = match take_i64(toks, p5) {
        Ok(v) => v,
        Err(e) => {
            return Err(e);
        },
    };
    let (details, p7) = match take_str(toks, p6) {
        Ok(v) => v,
        Err(e) => {
            return Err(e);
        },
    };
    let res = Finding {
        id,
        title,
        severity,
        description,
        tool_source,
        discovered_at: discovered,
        details,
    };
    proof {
        assert(res@ =~~= FindingV {
            id: res.id@,
            title: res.title@,
            severity,
            description: res.description@,
            tool_source: res.tool_source@,
            discovered_at: discovered,
            details: res.details@,
        });
    }
    Ok((res, p7))
}

fn take_findings(toks: &Vec<Token>, pos: usize) -> (r: Result<(Vec<Finding>, usize), CoreError>)
    requires
        pos <= toks@.len(),
    ensures
        match r {
            Ok(v) => rd_findings(toks_view(toks@).skip(pos as int)) == Option::Some(
                (v.0@.map_values(|f: Finding| f@), toks_view(toks@).skip(v.1 as int)),
            ) && pos < v.1 <= toks@.len(),
            Err(e) => rd_findings(toks_view(toks@).skip(pos as int)) is None && e
                == CoreError::DecodeError,
        },
{
    let ghost tv = toks_view(toks@);
    let (n, start) = match take_u64(toks, pos) {
        Ok(v) => v,
        Err(e) => {
            return Err(e);
        },
    };
    let mut acc: Vec<Finding> = Vec::new();
    let mut cur: usize = start;
    let mut k: u64 = 0;
    proof {
        assert(acc@.map_values(|f: Finding| f@) =~= Seq::<FindingV>::empty());
    }
    while k < n
        invariant
            pos <= toks@.len(),
            start <= cur <= toks@.len(),
            k <= n,
            k as int == acc@.len(),
            tv == toks_view(toks@),
            rd_u64(tv.skip(pos as int)) == Option::Some((n, tv.skip(start as int))),
            pos < start <= toks@.len(),
            rd_findings_body(tv.skip(start as int), n as nat) == (match rd_findings_body(
                tv.skip(cur as int),
                (n - k) as nat,
            ) {
                Option::Some(p) => Option::Some(
                    ((acc@.map_values(|f: Finding| f@) + p.0, p.1)),
                ),
                Option::None => Option::None::<(Seq<FindingV>, Seq<TokenV>)>,
            }),
        decreases n - k,
    {
        let ghost prev = acc@.map_values(|f: Finding| f@);
        let (f, p1) = match take_finding(toks, cur) {
            Ok(v) => v,
            Err(e) => {
                return Err(e);
            },
        };
        proof {
            assert(acc@.push(f).map_values(|x: Finding| x@) =~= prev.push(f@));
        }
        let ghost fview = f@;
        acc.push(f);
        cur = p1;
        k = k + 1;
        proof {
            assert forall|s: Seq<FindingV>|
                prev + (seq![fview] + s) == acc@.map_values(|x: Finding| x@) + s by {
                assert(prev + (seq![fview] + s) =~= prev.push(fview) + s);
            }
        }
    }
    proof {
        assert(rd_findings_body(tv.skip(cur as int), 0) == Option::Some(
            (Seq::<FindingV>::empty(), tv.skip(cur as int)),
        ));
        assert(acc@.map_values(|f: Finding| f@) + Seq::<FindingV>::empty() =~= acc@.map_values(
            |f: Finding| f@,
        ));
    }
    Ok((acc, cur))
}

fn take_artifact(toks: &Vec<Token>, pos: usize) -> (r: Result<(Artifact, usize), CoreError>)
    requires
        pos <= toks@.len(),
    ensures
        match r {
            Ok(v) => rd_artifact(toks_view(toks@).skip(pos as int)) == Option::Some(
                (v.0@, toks_view(toks@).skip(v.1 as int)),
            ) && pos <= v.1 <= toks@.len(),
            Err(e) => rd_artifact(toks_view(toks@).skip(pos as int)) is None && e
                == CoreError::DecodeError,
        },
{
    let (id, p1) = match take_str(toks, pos) {
        Ok(v) => v,
        Err(e) => {
            return Err(e);
        },
    };
    let (at, p2) = match take_u64(toks, p1) {
        Ok(v) => v,
        Err(e) => {
            return Err(e);
        },
    };
    let artifact_type = match arttype_of_tag_x(at) {
        Option::Some(a) => a,
        Option::None => {
            return Err(CoreError::DecodeError);
        },
    };
    let (name, p3) = match take_str(toks, p2) {
        Ok(v) => v,
        Err(e) => {
            return Err(e);
        },
    };
    let (path, p4) = match take_str(toks, p3) {
        Ok(v) => v,
        Err(e) => {
            return Err(e);
        },
    };
    let (created, p5) = match take_i64(toks, p4) {
        Ok(v) => v,
        Err(e) => {
            return Err(e);
        },
    };
    let (metadata, p6) = match take_pairs(toks, p5) {
        Ok(v) => v,
        Err(e) => {
            return Err(e);
        },
    };
    let res = Artifact { id, artifact_type, name, path, created_at: created, metadata };
    proof {
        assert(res@ =~~= ArtifactV {
            id: res.id@,
            artifact_type,
            name: res.name@,
            path: res.path@,
            created_at: created,
            metadata: crate::state::pairs_view(res.metadata@),
        });
    }
    Ok((res, p6))
}

fn take_artifacts(toks: &Vec<Token>, pos: usize) -> (r: Result<(Vec<Artifact>, usize), CoreError>)
    requires
        pos <= toks@.len(),
    ensures
        match r {
            Ok(v) => rd_artifacts(toks_view(toks@).skip(pos as int)) == Option::Some(
                (v.0@.map_values(|a: Artifact| a@), toks_view(toks@).skip(v.1 as int)),
            ) && pos < v.1 <= toks@.len(),
            Err(e) => rd_artifacts(toks_view(toks@).skip(pos as int)) is None && e
                == CoreError::DecodeError,
        },
{
    let ghost tv = toks_view(toks@);
    let (n, start) = match take_u64(toks, pos) {
        Ok(v) => v,
        Err(e) => {
            return Err(e);
        },
    };
    let mut acc: Vec<Artifact> = Vec::new();
    let mut cur: usize = start;
    let mut k: u64 = 0;
    proof {
        assert(acc@.map_values(|a: Artifact| a@) =~= Seq::<ArtifactV>::empty());
    }
    while k < n
        invariant
            pos <= toks@.len(),
            start <= cur <= toks@.len(),
            k <= n,
            k as int == acc@.len(),
            tv == toks_view(toks@),
            rd_u64(tv.skip(pos as int)) == Option::Some((n, tv.skip(start as int))),
            pos < start <= toks@.len(),
            rd_artifacts_body(tv.skip(start as int), n as nat) == (match rd_artifacts_body(
                tv.skip(cur as int),
                (n - k) as nat,
            ) {
                Option::Some(p) => Option::Some(
                    ((acc@.map_values(|a: Artifact| a@) + p.0, p.1)),
                ),
                Option::None => Option::None::<(Seq<ArtifactV>, Seq<TokenV>)>,
            }),
        decreases n - k,
    {
        let ghost prev = acc@.map_values(|a: Artifact| a@);
        let (a, p1) = match take_artifact(toks, cur) {
            Ok(v) => v,
            Err(e) => {
                return Err(e);
            },
        };
        proof {
            assert(acc@.push(a).map_values(|x: Artifact| x@) =~= prev.push(a@));
        }
        let ghost aview = a@;
        acc.push(a);
        cur = p1;
        k = k + 1;
        proof {
            assert forall|s: Seq<ArtifactV>|
                prev + (seq![aview] + s) == acc@.map_values(|x: Artifact| x@) + s by {
                assert(prev + (seq![aview] + s) =~= prev.push(aview) + s);
            }
        }
    }
    proof {
        assert(rd_artifacts_body(tv.skip(cur as int), 0) == Option::Some(
            (Seq::<ArtifactV>::empty(), tv.skip(cur as int)),
        ));
        assert(acc@.map_values(|a: Artifact| a@) + Seq::<ArtifactV>::empty() =~= acc@.map_values(
            |a: Artifact| a@,
        ));
    }
    Ok((acc, cur))
}

#[verifier::rlimit(100)]
fn take_session(toks: &Vec<Token>, pos: usize) -> (r: Result<(SessionState, usize), CoreError>)
    requires
        pos <= toks@.len(),
    ensures
        match r {
            Ok(v) => rd_session(toks_view(toks@).skip(pos as int)) == Option::Some(
                (v.0@, toks_view(toks@).skip(v.1 as int)),
            ) && pos <= v.1 <= toks@.len(),
            Err(e) => rd_session(toks_view(toks@).skip(pos as int)) is None && e
                == CoreError::DecodeError,
        },
{
    let ghost tv = toks_view(toks@);
    let (id, p1) = match take_str(toks, pos) {
        Ok(v) => v,
        Err(e) => {
            return Err(e);
        },
    };
    let (name, p2) = match take_str(toks, p1) {
        Ok(v) => v,
        Err(e) => {
            return Err(e);
        },
    };
    let (st, p3) = match take_u64(toks, p2) {
        Ok(v) => v,
        Err(e) => {
            return Err(e);
        },
    };
    let status = match status_of_tag_x(st) {
        Option::Some(s) => s,
        Option::None => {
            return Err(CoreError::DecodeError);
        },
    };
    let (md, p4) = match take_u64(toks, p3) {
        Ok(v) => v,
        Err(e) => {
            return Err(e);
        },
    };
    let mode = match mode_of_tag_x(md) {
        Option::Some(m) => m,
        Option::None => {
            return Err(CoreError::DecodeError);
        },
    };
    let (created, p5) = match take_i64(toks, p4) {
        Ok(v) => v,
        Err(e) => {
            return Err(e);
        },
    };
    let (updated, p6) = match take_i64(toks, p5) {
        Ok(v) => v,
        Err(e) => {
            return Err(e);
        },
    };
    proof {
        assert(rd_session_head(tv.skip(pos as int)) == Option::Some(
            ((id@, name@, status, mode, created, updated), tv.skip(p6 as int)),
        ));
    }
    let (task_queue, p7) = match take_tasks(toks, p6) {
        Ok(v) => v,
        Err(e) => {
            proof {
                assert(rd_session_tail(tv.skip(p6 as int)) is None);
            }
            return Err(e);
        },
    };
    let (approval_queue, p8) = match take_approvals(toks, p7) {
        Ok(v) => v,
        Err(e) => {
            proof {
                assert(rd_session_tail(tv.skip(p6 as int)) is None);
            }
            return Err(e);
        },
    };
    let (agent_states, p9) = match take_table(toks, p8) {
        Ok(v) => v,
        Err(e) => {
            proof {
                assert(rd_session_tail(tv.skip(p6 as int)) is None);
            }
            return Err(e);
        },
    };
    let (findings, p10) = match take_findings(toks, p9) {
        Ok(v) => v,
        Err(e) => {
            proof {
                assert(rd_session_tail(tv.skip(p6 as int)) is None);
            }
            return Err(e);
        },
    };
    let (artifacts, p11) = match take_artifacts(toks, p10) {
        Ok(v) => v,
        Err(e) => {
            proof {
                assert(rd_session_tail(tv.skip(p6 as int)) is None);
            }
            return Err(e);
        },
    };
    let (metadata, p12) = match take_pairs(toks, p11) {
        Ok(v) => v,
        Err(e) => {
            proof {
                assert(rd_session_tail(tv.skip(p6 as int)) is None);
            }
            return Err(e);
        },
    };
    let res = SessionState {
        id,
        name,
        status,
        mode,
        created_at: created,
        updated_at: updated,
        task_queue,
        approval_queue,
        agent_states,
        findings,
        artifacts,
        metadata,
    };
    proof {
        assert(rd_session_tail(tv.skip(p6 as int)) == Option::Some(
            (
                (
                    res.task_queue@.map_values(|t: Task| t@),
                    res.approval_queue@.map_values(|a: ApprovalRequest| a@),
                    res.agent_states@,
                    res.findings@.map_values(|f: Finding| f@),
                    res.artifacts@.map_values(|a: Artifact| a@),
                    crate::state::pairs_view(res.metadata@),
                ),
                tv.skip(p12 as int),
            ),
        ));
        assert(res@ =~~= SessionStateV {
            id: res.id@,
            name: res.name@,
            status,
            mode,
            created_at: created,
            updated_at: updated,
            task_queue: res.task_queue@.map_values(|t: Task| t@),
            approval_queue: res.approval_queue@.map_values(|a: ApprovalRequest| a@),
            agent_states: res.agent_states@,
            findings: res.findings@.map_values(|f: Finding| f@),
            artifacts: res.artifacts@.map_values(|a: Artifact| a@),
            metadata: crate::state::pairs_view(res.metadata@),
        });
    }
    Ok((res, p12))
}

/// Decodes a durable session file: the format version it carries, the
/// session snapshot, and the save instant. Fails with a decode error
/// exactly when the text is not a whole well-formed envelope.
#[verifier::rlimit(100)]
pub fn decode_session_file(text: &str) -> (r: Result<(String, SessionState, i64), CoreError>)
    ensures
        match r {
            Ok(f) => spec_decode_file(text@) == Option::Some((f.0@, f.1@, f.2)),
            Err(e) => spec_decode_file(text@) is None && e == CoreError::DecodeError,
        },
{
    let toks = match decode_tokens(text) {
        Ok(t) => t,
        Err(e) => {
            return Err(e);
        },
    };
    let ghost tv = toks_view(toks@);
    proof {
        assert(tv.skip(0) =~= tv);
        assert(toks@.len() == tv.len());
    }
    let (version, p1) = match take_str(&toks, 0) {
        Ok(v) => v,
        Err(e) => {
            return Err(e);
        },
    };
    let (session, p2) = match take_session(&toks, p1) {
        Ok(v) => v,
        Err(e) => {
            return Err(e);
        },
    };
    let (saved_at, p3) = match take_i64(&toks, p2) {
        Ok(v) => v,
        Err(e) => {
            return Err(e);
        },
    };
    proof {
        assert(rd_file(tv) == Option::Some(((version@, session@, saved_at), tv.skip(p3 as int))));
    }
    if p3 == toks.len() {
        proof {
            assert(tv.skip(p3 as int).len() == 0);
        }
        Ok((version, session, saved_at))
    } else {
        proof {
            assert(tv.skip(p3 as int).len() != 0);
        }
        Err(CoreError::DecodeError)
    }
}

} // verus!
