//! Core of a multi-agent automation coordinator: session data model,
//! durable session files, the orchestrating registry, and the typed
//! event stream that every mutation is reported on.
mod clock;
mod codec;
mod errors;
mod format;
mod ident;
pub mod events;
pub mod session;
pub mod state;

pub use errors::CoreError;
pub use format::{
    decode_session_file, encode_session_file, lemma_file_round_trip, session_wf, spec_decode_file,
    spec_encode_file,
};

use vstd::prelude::*;

use crate::clock::now_millis;
use crate::events::WSEvent;
use crate::ident::{fresh_entropy, id_chars, lemma_id_serial_injective, make_id};
use crate::session::{SessionManager, SessionMetadata, sorted_desc, spec_summaries, summaries_view};
use crate::state::{
    AgentState, AgentStatus, AgentType, OperationalMode, SessionState, SessionStateV, Task,
    opt_str_view, pairs_view, session_init, table_get, update_agent_spec, queue_task_spec,
};

verus! {

// ---------------------------------------------------------------------------
// Registry views
// ---------------------------------------------------------------------------

/// The first index of the session with the given id, or -1.
pub open spec fn find_session(q: Seq<SessionStateV>, id: Seq<char>) -> int
    decreases q.len(),
{
    if q.len() == 0 {
        -1
    } else if q[0].id == id {
        0
    } else {
        let r = find_session(q.drop_first(), id);
        if r == -1 {
            -1
        } else {
            1 + r
        }
    }
}

pub proof fn lemma_find_session(q: Seq<SessionStateV>, id: Seq<char>)
    ensures
        find_session(q, id) == -1 <==> (forall|i: int|
            0 <= i < q.len() ==> (#[trigger] q[i]).id != id),
        find_session(q, id) != -1 ==> {
            let f = find_session(q, id);
            &&& 0 <= f < q.len()
            &&& q[f].id == id
            &&& forall|j: int| 0 <= j < f ==> (#[trigger] q[j]).id != id
        },
    decreases q.len(),
{
    if q.len() == 0 {
    } else if q[0].id == id {
    } else {
        lemma_find_session(q.drop_first(), id);
        let r = find_session(q.drop_first(), id);
        assert forall|i: int| 0 <= i < q.len() && i >= 1 implies q[i] == q.drop_first()[i - 1] by {}
        if r != -1 {
            assert(q[r + 1].id == id);
        }
    }
}

/// Inserting a session: replaces the resident entry with the same id, or
/// appends when none is resident.
pub open spec fn upsert_session(q: Seq<SessionStateV>, s: SessionStateV) -> Seq<SessionStateV> {
    let f = find_session(q, s.id);
    if f == -1 {
        q.push(s)
    } else {
        q.update(f, s)
    }
}

/// Removing a session by id; a no-op when it is not resident.
pub open spec fn remove_session(q: Seq<SessionStateV>, id: Seq<char>) -> Seq<SessionStateV> {
    let f = find_session(q, id);
    if f == -1 {
        q
    } else {
        q.remove(f)
    }
}

/// No two resident sessions share an id.
pub open spec fn ids_distinct(q: Seq<SessionStateV>) -> bool {
    forall|i: int, j: int|
        0 <= i < q.len() && 0 <= j < q.len() && i != j ==> (#[trigger] q[i]).id != (
        #[trigger] q[j]).id
}

/// Removing an id twice is the same as removing it once: the in-memory
/// part of deleting a session is idempotent.
pub proof fn lemma_remove_session_idempotent(q: Seq<SessionStateV>, id: Seq<char>)
    requires
        ids_distinct(q),
    ensures
        remove_session(remove_session(q, id), id) == remove_session(q, id),
{
    lemma_find_session(q, id);
    let f = find_session(q, id);
    if f != -1 {
        let q2 = q.remove(f);
        lemma_find_session(q2, id);
        let f2 = find_session(q2, id);
        if f2 != -1 {
            assert(q2[f2].id == id);
            if f2 < f {
                assert(q2[f2] == q[f2]);
            } else {
                assert(q2[f2] == q[f2 + 1]);
            }
            assert(false);
        }
    }
}

/// An identifier issued by the serial discipline, below the bound.
pub open spec fn issued_shape(id: Seq<char>, bound: u64) -> bool {
    exists|u: Seq<char>, n: nat| u.len() == 12 && n < bound && id == id_chars("session_"@, u, n)
}

/// What a freshly created session looks like: fully initialized, with
/// the caller's metadata when any was given.
pub open spec fn created_session(
    id: Seq<char>,
    name: Seq<char>,
    mode: OperationalMode,
    metadata: Option<Seq<(Seq<char>, Seq<char>)>>,
    now: i64,
) -> SessionStateV {
    let base = session_init(id, name, mode, now);
    match metadata {
        Option::Some(m) => SessionStateV { metadata: m, ..base },
        Option::None => base,
    }
}

/// View of an optional metadata argument.
pub open spec fn opt_pairs_view(o: Option<Vec<(String, String)>>) -> Option<
    Seq<(Seq<char>, Seq<char>)>,
> {
    match o {
        Option::Some(v) => Option::Some(pairs_view(v@)),
        Option::None => Option::None,
    }
}

/// The registry after queueing one task on the session at index `f`,
/// together with the event that reports the appended task.
pub open spec fn task_queued_on(
    q: Seq<SessionStateV>,
    post: Seq<SessionStateV>,
    f: int,
    tool_name: Seq<char>,
    target: Seq<char>,
    args: Seq<(Seq<char>, Seq<char>)>,
    ev: WSEvent,
) -> bool {
    exists|entropy: Seq<char>, now: i64|
        post == q.update(f, #[trigger] queue_task_spec(q[f], tool_name, target, args, entropy, now))
            && (ev matches WSEvent::TaskQueued { task } && task@ == queue_task_spec(
            q[f],
            tool_name,
            target,
            args,
            entropy,
            now,
        ).task_queue.last())
}

/// The registry after replacing one agent record on the session at index
/// `f`, together with the event that reports the new record.
pub open spec fn agent_updated_on(
    q: Seq<SessionStateV>,
    post: Seq<SessionStateV>,
    f: int,
    agent: AgentType,
    state: AgentState,
    current_task: Option<Seq<char>>,
    ev: WSEvent,
) -> bool {
    exists|now: i64|
        post == q.update(f, #[trigger] update_agent_spec(q[f], agent, state, current_task, now))
            && (ev matches WSEvent::AgentStatusChanged { agent: a, status } && a == agent
            && status@ == table_get(
            update_agent_spec(q[f], agent, state, current_task, now).agent_states,
            agent,
        ))
}

// ---------------------------------------------------------------------------
// Verified clones for event payloads
// ---------------------------------------------------------------------------

fn clone_opt_str(o: &Option<String>) -> (r: Option<String>)
    ensures
        opt_str_view(r) == opt_str_view(*o),
{
    match o {
        Option::Some(s) => Option::Some(s.clone()),
        Option::None => Option::None,
    }
}

fn clone_pairs(v: &Vec<(String, String)>) -> (r: Vec<(String, String)>)
    ensures
        pairs_view(r@) == pairs_view(v@),
{
    let mut out: Vec<(String, String)> = Vec::new();
    let mut i: usize = 0;
    proof {
        assert(pairs_view(out@) =~= pairs_view(v@).take(0));
    }
    while i < v.len()
        invariant
            i <= v@.len(),
            pairs_view(out@) == pairs_view(v@).take(i as int),
        decreases v@.len() - i,
    {
        let a = v[i].0.clone();
        let b = v[i].1.clone();
        let ghost pre = out@;
        out.push((a, b));
        proof {
            assert(pairs_view(pre).len() == pre.len());
            assert(pre.len() == i as int);
            assert(out@ == pre.push((a, b)));
            assert forall|k: int| 0 <= k <= i implies #[trigger] pairs_view(out@)[k] == pairs_view(
                v@,
            ).take(i + 1)[k] by {
                if k < i {
                    assert(out@[k] == pre[k]);
                    assert(pairs_view(pre)[k] == pairs_view(v@).take(i as int)[k]);
                    assert(pairs_view(v@).take(i as int)[k] == pairs_view(v@)[k]);
                } else {
                    assert(out@[k] == (a, b));
                    assert(pairs_view(v@)[k] == (v@[k].0@, v@[k].1@));
                }
            }
            assert(pairs_view(out@) =~= pairs_view(v@).take(i + 1));
        }
        i = i + 1;
    }
    proof {
        assert(pairs_view(v@).take(v@.len() as int) =~= pairs_view(v@));
    }
    out
}

fn clone_task(t: &Task) -> (r: Task)
    ensures
        r@ == t@,
{
    let r = Task {
        id: t.id.clone(),
        tool_name: t.tool_name.clone(),
        target: t.target.clone(),
        args: clone_pairs(&t.args),
        status: t.status,
        created_at: t.created_at,
        started_at: t.started_at,
        completed_at: t.completed_at,
    };
    proof {
        assert(r@ =~~= t@);
    }
    r
}

fn clone_summaries(v: &Vec<SessionMetadata>) -> (r: Vec<SessionMetadata>)
    ensures
        summaries_view(r@) == summaries_view(v@),
{
    let mut out: Vec<SessionMetadata> = Vec::new();
    let mut i: usize = 0;
    proof {
        assert(summaries_view(out@) =~= summaries_view(v@).take(0));
    }
    while i < v.len()
        invariant
            i <= v@.len(),
            summaries_view(out@) == summaries_view(v@).take(i as int),
        decreases v@.len() - i,
    {
        let m = &v[i];
        let c = SessionMetadata {
            id: m.id.clone(),
            name: m.name.clone(),
            status: m.status,
            mode: m.mode,
            created_at: m.created_at,
            updated_at: m.updated_at,
            task_count: m.task_count,
            finding_count: m.finding_count,
        };
        proof {
            assert(c@ =~~= m@);
        }
        let ghost pre = out@;
        let ghost cv = c@;
        out.push(c);
        proof {
            assert(summaries_view(pre).len() == pre.len());
            assert(pre.len() == i as int);
            assert forall|k: int| 0 <= k <= i implies #[trigger] summaries_view(out@)[k]
                == summaries_view(v@).take(i + 1)[k] by {
                if k < i {
                    assert(out@[k] == pre[k]);
                    assert(summaries_view(pre)[k] == summaries_view(v@).take(i as int)[k]);
                    assert(summaries_view(v@).take(i as int)[k] == summaries_view(v@)[k]);
                } else {
                    assert(out@[k]@ == cv);
                    assert(summaries_view(v@)[k] == v@[k]@);
                }
            }
            assert(summaries_view(out@) =~= summaries_view(v@).take(i + 1));
        }
        i = i + 1;
    }
    proof {
        assert(summaries_view(v@).take(v@.len() as int) =~= summaries_view(v@));
    }
    out
}

// ---------------------------------------------------------------------------
// The orchestrator
// ---------------------------------------------------------------------------

/// The orchestrating registry: the live sessions, the single process-wide
/// active-session pointer, the store's naming scheme, and the serial
/// counter that keeps created ids unique. Every mutation returns the
/// event to broadcast; the surrounding process owns the lock around the
/// registry, the transport, and the file I/O.
pub struct NeuroRiftCore {
    sessions: Vec<SessionState>,
    active_session: Option<String>,
    session_manager: SessionManager,
    next_serial: u64,
    issued: Ghost<Set<Seq<char>>>,
}

impl NeuroRiftCore {
    /// The live sessions, as mathematical values.
    pub closed spec fn sessions_view(&self) -> Seq<SessionStateV> {
        self.sessions@.map_values(|s: SessionState| s@)
    }

    /// The active-session pointer, as a mathematical value.
    pub closed spec fn active_view(&self) -> Option<Seq<char>> {
        opt_str_view(self.active_session)
    }

    /// Every id ever handed out by session creation.
    pub closed spec fn issued_ids(&self) -> Set<Seq<char>> {
        self.issued@
    }

    /// The serial the next created session will carry.
    pub closed spec fn serial(&self) -> u64 {
        self.next_serial
    }

    /// Registry invariant: resident ids are distinct, and every issued id
    /// carries a serial below the counter — which is what makes the next
    /// id provably fresh.
    pub closed spec fn wf(&self) -> bool {
        &&& ids_distinct(self.sessions_view())
        &&& forall|id: Seq<char>| self.issued@.contains(id) ==> issued_shape(id, self.next_serial)
    }

    /// A fresh registry over a store rooted at the given directory.
    pub fn new(sessions_dir: String) -> (r: NeuroRiftCore)
        ensures
            r.wf(),
            r.sessions_view() == Seq::<SessionStateV>::empty(),
            r.active_view() is None,
            r.issued_ids() == Set::<Seq<char>>::empty(),
            r.serial() == 0,
    {
        let r = NeuroRiftCore {
            sessions: Vec::new(),
            active_session: Option::None,
            session_manager: SessionManager::new(sessions_dir),
            next_serial: 0,
            issued: Ghost(Set::empty()),
        };
        proof {
            assert(r.sessions_view() =~= Seq::<SessionStateV>::empty());
        }
        r
    }

    /// The store's naming scheme, for the process that does the file I/O.
    pub fn session_manager(&self) -> (r: &SessionManager)
    {
        &self.session_manager
    }

    /// Whether the serial counter can still grow: the one machine limit
    /// on creating sessions.
    pub fn can_create_session(&self) -> (r: bool)
        ensures
            r == (self.serial() < u64::MAX),
    {
        self.next_serial < u64::MAX
    }

    /// The resident index of the session with this id.
    fn index_of(&self, key: &String) -> (r: Option<usize>)
        ensures
            match r {
                Option::Some(i) => i < self.sessions@.len() && find_session(
                    self.sessions_view(),
                    key@,
                ) == i as int,
                Option::None => find_session(self.sessions_view(), key@) == -1,
            },
    {
        let ghost q = self.sessions_view();
        let n = self.sessions.len();
        let mut i: usize = 0;
        while i < n
            invariant
                i <= n,
                n == q.len(),
                q == self.sessions_view(),
                forall|j: int| 0 <= j < i ==> (#[trigger] q[j]).id != key@,
            decreases n - i,
        {
            if self.sessions[i].id == *key {
                proof {
                    lemma_find_session(q, key@);
                    let f = find_session(q, key@);
                    assert(q[i as int].id == key@);
                    if f == -1 {
                        assert(q[i as int].id != key@);
                        assert(false);
                    }
                    if f < i {
                        assert(q[f].id != key@);
                        assert(false);
                    }
                    if f > i {
                        assert(q[i as int].id != key@);
                        assert(false);
                    }
                }
                return Option::Some(i);
            }
            i = i + 1;
        }
        proof {
            lemma_find_session(q, key@);
            assert(find_session(q, key@) == -1);
        }
        Option::None
    }

    /// Inserts a session, replacing any resident one with the same id.
    fn put_session(&mut self, session: SessionState)
        requires
            ids_distinct(old(self).sessions_view()),
        ensures
            final(self).sessions_view() == upsert_session(old(self).sessions_view(), session@),
            ids_distinct(final(self).sessions_view()),
            final(self).active_session == old(self).active_session,
            final(self).session_manager == old(self).session_manager,
            final(self).next_serial == old(self).next_serial,
            final(self).issued@ == old(self).issued@,
    {
        let ghost q = old(self).sessions_view();
        proof {
            lemma_find_session(q, session@.id);
        }
        match self.index_of(&session.id) {
            Option::Some(i) => {
                let _prior = self.sessions.remove(i);
                self.sessions.insert(i, session);
                proof {
                    assert(self.sessions_view() =~= q.update(i as int, session@));
                    assert(q[i as int].id == session@.id);
                    assert(ids_distinct(self.sessions_view())) by {
                        assert forall|a: int, b: int|
                            0 <= a < q.len() && 0 <= b < q.len() && a != b implies (
                        #[trigger] self.sessions_view()[a]).id != (
                        #[trigger] self.sessions_view()[b]).id by {
                            assert(self.sessions_view()[a].id == q[a].id);
                            assert(self.sessions_view()[b].id == q[b].id);
                        }
                    }
                }
            },
            Option::None => {
                self.sessions.push(session);
                proof {
                    assert(self.sessions_view() =~= q.push(session@));
                    assert(ids_distinct(self.sessions_view())) by {
                        assert forall|a: int, b: int|
                            0 <= a < self.sessions_view().len() && 0 <= b
                                < self.sessions_view().len() && a != b implies (
                        #[trigger] self.sessions_view()[a]).id != (
                        #[trigger] self.sessions_view()[b]).id by {
                            if a < q.len() && b < q.len() {
                                assert(self.sessions_view()[a] == q[a]);
                                assert(self.sessions_view()[b] == q[b]);
                            } else if a < q.len() {
                                assert(self.sessions_view()[b] == session@);
                                assert(q[a].id != session@.id);
                            } else {
                                assert(self.sessions_view()[a] == session@);
                                assert(q[b].id != session@.id);
                            }
                        }
                    }
                }
            },
        }
    }

    /// Deterministic core of session creation: builds the session under
    /// the id `session_<entropy>_<serial>`, inserts it, makes it active,
    /// and reports the creation event. The returned id was never issued
    /// before: created ids are unique across the process lifetime.
    pub fn create_session_at(
        &mut self,
        name: String,
        mode: OperationalMode,
        metadata: Option<Vec<(String, String)>>,
        entropy: &str,
        now: i64,
    ) -> (r: (String, WSEvent))
        requires
            old(self).wf(),
            old(self).serial() < u64::MAX,
            entropy@.len() == 12,
        ensures
            final(self).wf(),
            r.0@ == id_chars("session_"@, entropy@, old(self).serial() as nat),
            !old(self).issued_ids().contains(r.0@),
            final(self).issued_ids() == old(self).issued_ids().insert(r.0@),
            final(self).serial() == old(self).serial() + 1,
            final(self).sessions_view() == upsert_session(
                old(self).sessions_view(),
                created_session(r.0@, name@, mode, opt_pairs_view(metadata), now),
            ),
            final(self).active_view() == Option::Some(r.0@),
            r.1 matches WSEvent::SessionCreated { session_id, name: n } && session_id@ == r.0@
                && n@ == name@,
    {
        let ghost namev = name@;
        let ghost metav = opt_pairs_view(metadata);
        let id = make_id("session_", entropy, self.next_serial);
        proof {
            let idv = id@;
            if old(self).issued@.contains(idv) {
                let (u, n): (Seq<char>, nat) = choose|u: Seq<char>, n: nat|
                    u.len() == 12 && n < old(self).next_serial && idv == id_chars(
                        "session_"@,
                        u,
                        n,
                    );
                lemma_id_serial_injective(
                    "session_"@,
                    u,
                    n,
                    entropy@,
                    old(self).next_serial as nat,
                );
                assert(false);
            }
        }
        let event_id = id.clone();
        let event_name = name.clone();
        let mut session = SessionState::new_with_id(id, name, mode, now);
        match metadata {
            Option::Some(m) => {
                session.metadata = m;
            },
            Option::None => {},
        }
        let active_id = event_id.clone();
        let returned_id = event_id.clone();
        proof {
            assert(session@ =~~= created_session(returned_id@, namev, mode, metav, now));
        }
        self.put_session(session);
        self.active_session = Option::Some(active_id);
        self.next_serial = self.next_serial + 1;
        proof {
            self.issued@ = self.issued@.insert(returned_id@);
        }
        let ev = WSEvent::SessionCreated { session_id: event_id, name: event_name };
        proof {
            assert(self.wf()) by {
                assert forall|idq: Seq<char>| self.issued@.contains(idq) implies issued_shape(
                    idq,
                    self.next_serial,
                ) by {
                    if idq == returned_id@ {
                        assert(entropy@.len() == 12 && (old(self).next_serial as nat)
                            < self.next_serial && idq == id_chars(
                            "session_"@,
                            entropy@,
                            old(self).next_serial as nat,
                        ));
                    } else {
                        assert(old(self).issued@.contains(idq));
                        let (u, n): (Seq<char>, nat) = choose|u: Seq<char>, n: nat|
                            u.len() == 12 && n < old(self).next_serial && idq == id_chars(
                                "session_"@,
                                u,
                                n,
                            );
                        assert(u.len() == 12 && n < self.next_serial && idq == id_chars(
                            "session_"@,
                            u,
                            n,
                        ));
                    }
                }
            }
        }
        (returned_id, ev)
    }

    /// Creates a session now, under a fresh random id: inserts it, makes
    /// it active (unconditionally replacing any prior active pointer) and
    /// reports the creation event. The id differs from every id this
    /// registry ever issued, and the new session starts with all five
    /// agent records idle.
    pub fn create_session(
        &mut self,
        name: String,
        mode: OperationalMode,
        metadata: Option<Vec<(String, String)>>,
    ) -> (r: (String, WSEvent))
        requires
            old(self).wf(),
            old(self).serial() < u64::MAX,
        ensures
            final(self).wf(),
            !old(self).issued_ids().contains(r.0@),
            final(self).issued_ids() == old(self).issued_ids().insert(r.0@),
            final(self).serial() == old(self).serial() + 1,
            final(self).active_view() == Option::Some(r.0@),
            exists|now: i64|
                final(self).sessions_view() == upsert_session(
                    old(self).sessions_view(),
                    created_session(r.0@, name@, mode, opt_pairs_view(metadata), now),
                ),
            r.1 matches WSEvent::SessionCreated { session_id, name: n } && session_id@ == r.0@
                && n@ == name@,
    {
        let now = now_millis();
        let entropy = fresh_entropy();
        let part = entropy.as_str().substring_char(0, 12);
        self.create_session_at(name, mode, metadata, part, now)
    }

    /// Removes a session from the registry: the entry leaves memory, the
    /// active pointer is cleared when it named this id, and the deletion
    /// event is reported. Deleting an id that is not resident is a no-op
    /// in memory; the caller still removes the on-disk file and surfaces
    /// a missing file as its own not-found failure.
    pub fn delete_session(&mut self, session_id: &str) -> (ev: WSEvent)
        requires
            old(self).wf(),
        ensures
            final(self).wf(),
            final(self).sessions_view() == remove_session(old(self).sessions_view(), session_id@),
            final(self).active_view() == (if old(self).active_view() == Option::Some(session_id@) {
                Option::None::<Seq<char>>
            } else {
                old(self).active_view()
            }),
            final(self).issued_ids() == old(self).issued_ids(),
            final(self).serial() == old(self).serial(),
            ev matches WSEvent::SessionDeleted { session_id: sid } && sid@ == session_id@,
    {
        let ghost q = old(self).sessions_view();
        let key: String = session_id.to_owned();
        match self.index_of(&key) {
            Option::Some(i) => {
                let _prior = self.sessions.remove(i);
                proof {
                    assert(self.sessions_view() =~= q.remove(i as int));
                    assert(ids_distinct(self.sessions_view())) by {
                        assert forall|a: int, b: int|
                            0 <= a < self.sessions_view().len() && 0 <= b
                                < self.sessions_view().len() && a != b implies (
                        #[trigger] self.sessions_view()[a]).id != (
                        #[trigger] self.sessions_view()[b]).id by {
                            let qa: int = if a < i {
                                a
                            } else {
                                a + 1
                            };
                            let qb: int = if b < i {
                                b
                            } else {
                                b + 1
                            };
                            assert(self.sessions_view()[a] == q[qa]);
                            assert(self.sessions_view()[b] == q[qb]);
                        }
                    }
                }
            },
            Option::None => {},
        }
        let clear = match &self.active_session {
            Option::Some(a) => *a == key,
            Option::None => false,
        };
        if clear {
            self.active_session = Option::None;
        }
        WSEvent::SessionDeleted { session_id: key }
    }

    /// Serializes the resident session with the given id for saving: the
    /// file name, the file text, and the save event, stamped now. Returns
    /// nothing — a silent no-op — exactly when the id is not resident.
    pub fn save_session(&self, session_id: &str) -> (r: Option<(String, String, WSEvent)>)
        ensures
            (r is Some) <==> find_session(self.sessions_view(), session_id@) != -1,
            r matches Option::Some((name, text, ev)) ==> {
                let f = find_session(self.sessions_view(), session_id@);
                &&& name@ == session_id@ + ".nrs"@
                &&& exists|now: i64| text@ == spec_encode_file("1.0"@, self.sessions_view()[f], now)
                &&& ev matches WSEvent::SessionSaved { session_id: sid, timestamp: _ } && sid@
                    == session_id@
            },
    {
        let key: String = session_id.to_owned();
        match self.index_of(&key) {
            Option::Some(i) => {
                proof {
                    lemma_find_session(self.sessions_view(), key@);
                }
                let (name, text) = self.session_manager.save_session(&self.sessions[i]);
                let ts = now_millis();
                proof {
                    assert(self.sessions@[i as int]@ == self.sessions_view()[i as int]);
                    assert(self.sessions_view()[i as int].id == key@);
                }
                let ev = WSEvent::SessionSaved { session_id: key, timestamp: ts };
                Option::Some((name, text, ev))
            },
            Option::None => Option::None,
        }
    }

    /// Loads a session from the text of its durable file: decodes the
    /// envelope, inserts the snapshot (replacing any resident session
    /// with the same id), makes it active, and reports the loaded event
    /// carrying the full state. The flag says whether the file's format
    /// version is current — a mismatch is tolerated, never an error.
    /// Fails with a decode error, changing nothing, exactly when the
    /// text is malformed.
    pub fn load_session(&mut self, text: &str) -> (r: Result<(String, bool, WSEvent), CoreError>)
        requires
            old(self).wf(),
        ensures
            final(self).wf(),
            match r {
                Ok(out) => {
                    let f = spec_decode_file(text@)->Some_0;
                    &&& spec_decode_file(text@) is Some
                    &&& out.0@ == f.1.id
                    &&& out.1 == (f.0 == "1.0"@)
                    &&& final(self).sessions_view() == upsert_session(
                        old(self).sessions_view(),
                        f.1,
                    )
                    &&& final(self).active_view() == Option::Some(f.1.id)
                    &&& out.2 matches WSEvent::SessionLoaded { session_id, state } && session_id@
                        == f.1.id && state@ == f.1
                    &&& final(self).issued_ids() == old(self).issued_ids()
                    &&& final(self).serial() == old(self).serial()
                },
                Err(e) => *final(self) == *old(self) && spec_decode_file(text@) is None && e
                    == CoreError::DecodeError,
            },
    {
        let (version, session, _saved_at) = match decode_session_file(text) {
            Ok(f) => f,
            Err(e) => {
                return Err(e);
            },
        };
        let current: String = "1.0".to_owned();
        let version_ok = version == current;
        proof {
            reveal_strlit("1.0");
        }
        let id = session.id.clone();
        let active_id = id.clone();
        let event_id = id.clone();
        let (_v2, session_copy, _t2) = match decode_session_file(text) {
            Ok(f) => f,
            Err(_) => {
                return Err(CoreError::DecodeError);
            },
        };
        self.put_session(session);
        self.active_session = Option::Some(active_id);
        let ev = WSEvent::SessionLoaded { session_id: event_id, state: session_copy };
        Ok((id, version_ok, ev))
    }

    /// The listing of the store's file texts: the summaries of every
    /// decodable text, most recently updated first, and the event that
    /// carries them to observers. Corrupt texts are skipped; the listing
    /// never fails.
    pub fn list_sessions(&self, texts: &Vec<String>) -> (r: (Vec<SessionMetadata>, WSEvent))
        ensures
            sorted_desc(summaries_view(r.0@)),
            summaries_view(r.0@).to_multiset() == spec_summaries(
                texts@.map_values(|t: String| t@),
            ).to_multiset(),
            r.1 matches WSEvent::SessionList { sessions } && summaries_view(sessions@)
                == summaries_view(r.0@),
    {
        let list = self.session_manager.list_sessions(texts);
        let copy = clone_summaries(&list);
        let ev = WSEvent::SessionList { sessions: copy };
        (list, ev)
    }

    /// The session the active pointer names, if it is still resident.
    /// The pointer may name a session that vanished meanwhile; that case
    /// is "no active session", exactly as for an empty pointer.
    pub fn get_active_session(&self) -> (r: Option<&SessionState>)
        ensures
            match r {
                Option::Some(s) => self.active_view() == Option::Some(s@.id) && find_session(
                    self.sessions_view(),
                    s@.id,
                ) != -1 && s@ == self.sessions_view()[find_session(self.sessions_view(), s@.id)],
                Option::None => match self.active_view() {
                    Option::Some(id) => find_session(self.sessions_view(), id) == -1,
                    Option::None => true,
                },
            },
    {
        let key = match &self.active_session {
            Option::Some(id) => id.clone(),
            Option::None => {
                return Option::None;
            },
        };
        match self.index_of(&key) {
            Option::Some(i) => {
                proof {
                    lemma_find_session(self.sessions_view(), key@);
                    assert(self.sessions_view()[i as int].id == key@);
                }
                Option::Some(&self.sessions[i])
            },
            Option::None => Option::None,
        }
    }

    /// Queues a task on the active session: appends it at the tail with a
    /// fresh id and the current instant, touches the session, and reports
    /// the queued task. A no-op — not an error — when there is no active
    /// session or it is no longer resident.
    #[verifier::rlimit(100)]
    pub fn queue_task(&mut self, tool_name: String, target: String, args: Vec<(String, String)>)
        -> (r: Option<WSEvent>)
        requires
            old(self).wf(),
        ensures
            final(self).wf(),
            final(self).active_view() == old(self).active_view(),
            final(self).issued_ids() == old(self).issued_ids(),
            final(self).serial() == old(self).serial(),
            match r {
                Option::Some(ev) => {
                    let q = old(self).sessions_view();
                    &&& old(self).active_view() is Some
                    &&& find_session(q, old(self).active_view()->Some_0) != -1
                    &&& task_queued_on(
                        q,
                        final(self).sessions_view(),
                        find_session(q, old(self).active_view()->Some_0),
                        tool_name@,
                        target@,
                        pairs_view(args@),
                        ev,
                    )
                },
                Option::None => {
                    &&& *final(self) == *old(self)
                    &&& match old(self).active_view() {
                        Option::Some(id) => find_session(old(self).sessions_view(), id) == -1,
                        Option::None => true,
                    }
                },
            },
    {
        let ghost q = old(self).sessions_view();
        let key = match &self.active_session {
            Option::Some(id) => id.clone(),
            Option::None => {
                return Option::None;
            },
        };
        let i = match self.index_of(&key) {
            Option::Some(i) => i,
            Option::None => {
                return Option::None;
            },
        };
        proof {
            lemma_find_session(q, key@);
        }
        let now = now_millis();
        let entropy = fresh_entropy();
        let part = entropy.as_str().substring_char(0, 8);
        let ghost tnv = tool_name@;
        let ghost tgv = target@;
        let ghost agv = pairs_view(args@);
        let mut session = self.sessions.remove(i);
        session.queue_task_at(tool_name, target, args, part, now);
        proof {
            assert(session@.task_queue.len() == session.task_queue@.len());
            assert(session@.task_queue.len() >= 1);
        }
        let last_idx = session.task_queue.len() - 1;
        let task = clone_task(&session.task_queue[last_idx]);
        let ghost updated = session@;
        self.sessions.insert(i, session);
        proof {
            assert(self.sessions_view() =~= q.update(i as int, updated));
            assert(q[i as int].id == key@);
            assert(ids_distinct(self.sessions_view())) by {
                assert forall|a: int, b: int|
                    0 <= a < q.len() && 0 <= b < q.len() && a != b implies (
                #[trigger] self.sessions_view()[a]).id != (#[trigger] self.sessions_view()[b]).id by {
                    assert(self.sessions_view()[a].id == q[a].id);
                    assert(self.sessions_view()[b].id == q[b].id);
                }
            }
            assert(updated.task_queue.last() == task@);
            assert(old(self).active_view() == Option::Some(key@));
            assert(find_session(q, key@) == i as int);
            assert(updated == queue_task_spec(q[i as int], tnv, tgv, agv, part@, now));
        }
        let ev = WSEvent::TaskQueued { task };
        proof {
            assert(task_queued_on(q, self.sessions_view(), i as int, tnv, tgv, agv, ev)) by {
                assert(self.sessions_view() == q.update(
                    i as int,
                    queue_task_spec(q[i as int], tnv, tgv, agv, part@, now),
                ) && (ev matches WSEvent::TaskQueued { task: t } && t@ == queue_task_spec(
                    q[i as int],
                    tnv,
                    tgv,
                    agv,
                    part@,
                    now,
                ).task_queue.last()));
            }
        }
        Option::Some(ev)
    }

    /// Updates one agent kind's record on the active session: new state,
    /// new task reference, fresh update stamp, and reports the change.
    /// A no-op when there is no active session.
    pub fn update_agent_status(
        &mut self,
        agent: AgentType,
        state: AgentState,
        current_task: Option<String>,
    ) -> (r: Option<WSEvent>)
        requires
            old(self).wf(),
        ensures
            final(self).wf(),
            final(self).active_view() == old(self).active_view(),
            final(self).issued_ids() == old(self).issued_ids(),
            final(self).serial() == old(self).serial(),
            match r {
                Option::Some(ev) => {
                    let q = old(self).sessions_view();
                    &&& old(self).active_view() is Some
                    &&& find_session(q, old(self).active_view()->Some_0) != -1
                    &&& agent_updated_on(
                        q,
                        final(self).sessions_view(),
                        find_session(q, old(self).active_view()->Some_0),
                        agent,
                        state,
                        opt_str_view(current_task),
                        ev,
                    )
                },
                Option::None => {
                    &&& *final(self) == *old(self)
                    &&& match old(self).active_view() {
                        Option::Some(id) => find_session(old(self).sessions_view(), id) == -1,
                        Option::None => true,
                    }
                },
            },
    {
        let ghost q = old(self).sessions_view();
        let key = match &self.active_session {
            Option::Some(id) => id.clone(),
            Option::None => {
                return Option::None;
            },
        };
        let i = match self.index_of(&key) {
            Option::Some(i) => i,
            Option::None => {
                return Option::None;
            },
        };
        proof {
            lemma_find_session(q, key@);
        }
        let now = now_millis();
        let ghost ctv = opt_str_view(current_task);
        let status_copy = AgentStatus {
            agent,
            state,
            current_task: clone_opt_str(&current_task),
            last_update: now,
        };
        let mut session = self.sessions.remove(i);
        session.update_agent_at(agent, state, current_task, now);
        let ghost updated = session@;
        self.sessions.insert(i, session);
        proof {
            assert(self.sessions_view() =~= q.update(i as int, updated));
            assert(q[i as int].id == key@);
            assert(ids_distinct(self.sessions_view())) by {
                assert forall|a: int, b: int|
                    0 <= a < q.len() && 0 <= b < q.len() && a != b implies (
                #[trigger] self.sessions_view()[a]).id != (#[trigger] self.sessions_view()[b]).id by {
                    assert(self.sessions_view()[a].id == q[a].id);
                    assert(self.sessions_view()[b].id == q[b].id);
                }
            }
            assert(status_copy@ =~~= table_get(updated.agent_states, agent));
            assert(old(self).active_view() == Option::Some(key@));
            assert(find_session(q, key@) == i as int);
            assert(updated == update_agent_spec(q[i as int], agent, state, ctv, now));
        }
        let ev = WSEvent::AgentStatusChanged { agent, status: status_copy };
        proof {
            assert(agent_updated_on(q, self.sessions_view(), i as int, agent, state, ctv, ev)) by {
                assert(self.sessions_view() == q.update(
                    i as int,
                    update_agent_spec(q[i as int], agent, state, ctv, now),
                ) && (ev matches WSEvent::AgentStatusChanged { agent: a, status } && a == agent
                    && status@ == table_get(
                    update_agent_spec(q[i as int], agent, state, ctv, now).agent_states,
                    agent,
                )));
            }
        }
        Option::Some(ev)
    }
}

} // verus!
