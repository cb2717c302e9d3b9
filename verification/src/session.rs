//! The session store: the durable envelope, decode-light summaries for
//! listing, and the naming scheme for session and export files. The
//! surrounding process performs the actual file reads and writes; every
//! byte it stores or parses comes from the verified format here.
use vstd::prelude::*;

use crate::clock::{now_millis, format_compact_stamp, compact_stamp, MAX_STAMP_MILLIS};
use crate::codec::{append_u64, dec_digits};
use crate::errors::CoreError;
use crate::format::{
    spec_decode_file, spec_encode_file, encode_session_file, decode_session_file, session_wf,
};
use crate::state::{SessionState, SessionStatus, OperationalMode, SessionStateV};

verus! {

/// The format version written into every envelope.
pub fn nrs_version() -> (r: &'static str)
    ensures
        r@ == "1.0"@,
{
    "1.0"
}

/// The envelope held by a durable session file.
pub struct NrsFile {
    pub version: String,
    pub session: SessionState,
    pub saved_at: i64,
}

#[verifier::ext_equal]
pub struct NrsFileV {
    pub version: Seq<char>,
    pub session: SessionStateV,
    pub saved_at: i64,
}

impl View for NrsFile {
    type V = NrsFileV;

    open spec fn view(&self) -> NrsFileV {
        NrsFileV { version: self.version@, session: self.session@, saved_at: self.saved_at }
    }
}

/// Summary of one stored session: what a listing shows, without the
/// session's full contents.
#[derive(Clone, Debug)]
pub struct SessionMetadata {
    pub id: String,
    pub name: String,
    pub status: SessionStatus,
    pub mode: OperationalMode,
    pub created_at: i64,
    pub updated_at: i64,
    pub task_count: usize,
    pub finding_count: usize,
}

#[verifier::ext_equal]
pub struct SessionMetadataV {
    pub id: Seq<char>,
    pub name: Seq<char>,
    pub status: SessionStatus,
    pub mode: OperationalMode,
    pub created_at: i64,
    pub updated_at: i64,
    pub task_count: nat,
    pub finding_count: nat,
}

impl View for SessionMetadata {
    type V = SessionMetadataV;

    open spec fn view(&self) -> SessionMetadataV {
        SessionMetadataV {
            id: self.id@,
            name: self.name@,
            status: self.status,
            mode: self.mode,
            created_at: self.created_at,
            updated_at: self.updated_at,
            task_count: self.task_count as nat,
            finding_count: self.finding_count as nat,
        }
    }
}

/// The summary of a session snapshot.
pub open spec fn summary_of(v: SessionStateV) -> SessionMetadataV {
    SessionMetadataV {
        id: v.id,
        name: v.name,
        status: v.status,
        mode: v.mode,
        created_at: v.created_at,
        updated_at: v.updated_at,
        task_count: v.task_queue.len(),
        finding_count: v.findings.len(),
    }
}

/// The summaries of the decodable texts, in input order; texts that do
/// not decode are skipped and fail nothing.
pub open spec fn spec_summaries(texts: Seq<Seq<char>>) -> Seq<SessionMetadataV>
    decreases texts.len(),
{
    if texts.len() == 0 {
        Seq::empty()
    } else {
        let rest = spec_summaries(texts.drop_first());
        match spec_decode_file(texts[0]) {
            Option::Some(f) => seq![summary_of(f.1)] + rest,
            Option::None => rest,
        }
    }
}

/// Sorted by update instant, most recent first.
pub open spec fn sorted_desc(s: Seq<SessionMetadataV>) -> bool {
    forall|i: int, j: int|
        0 <= i <= j < s.len() ==> (#[trigger] s[i]).updated_at >= (#[trigger] s[j]).updated_at
}

/// A summary strictly more recent than every other one stands at the
/// front of a sorted listing: a newly touched session moves to the top.
pub proof fn lemma_front_most_recent(s: Seq<SessionMetadataV>, i: int)
    requires
        sorted_desc(s),
        0 <= i < s.len(),
        forall|j: int| 0 <= j < s.len() && j != i ==> s[i].updated_at > (#[trigger] s[j]).updated_at,
    ensures
        i == 0,
{
    if i > 0 {
        assert(s[0].updated_at >= s[i].updated_at);
        assert(s[i].updated_at > s[0].updated_at);
    }
}

/// The views of a summary vector.
pub open spec fn summaries_view(v: Seq<SessionMetadata>) -> Seq<SessionMetadataV> {
    v.map_values(|m: SessionMetadata| m@)
}

fn summary_from_text(text: &str) -> (r: Result<SessionMetadata, CoreError>)
    ensures
        match r {
            Ok(m) => spec_decode_file(text@) is Some && m@ == summary_of(
                spec_decode_file(text@)->Some_0.1,
            ),
            Err(e) => spec_decode_file(text@) is None && e == CoreError::DecodeError,
        },
{
    let (_version, session, _saved_at) = match decode_session_file(text) {
        Ok(f) => f,
        Err(e) => {
            return Err(e);
        },
    };
    let m = SessionMetadata {
        id: session.id,
        name: session.name,
        status: session.status,
        mode: session.mode,
        created_at: session.created_at,
        updated_at: session.updated_at,
        task_count: session.task_queue.len(),
        finding_count: session.findings.len(),
    };
    proof {
        assert(m@ =~~= summary_of(session@));
    }
    Ok(m)
}

/// Sorts summaries by `updated_at` descending; the result is a
/// permutation of the input.
fn sort_summaries_desc(input: Vec<SessionMetadata>) -> (out: Vec<SessionMetadata>)
    ensures
        sorted_desc(summaries_view(out@)),
        summaries_view(out@).to_multiset() == summaries_view(input@).to_multiset(),
{
    broadcast use vstd::seq_lib::group_to_multiset_ensures;

    let ghost orig = summaries_view(input@);
    let mut src = input;
    let mut out: Vec<SessionMetadata> = Vec::new();
    proof {
        assert(summaries_view(out@) =~= Seq::<SessionMetadataV>::empty());
        assert(summaries_view(out@).to_multiset().add(summaries_view(src@).to_multiset())
            =~= orig.to_multiset());
    }
    while src.len() > 0
        invariant
            summaries_view(out@).to_multiset().add(summaries_view(src@).to_multiset())
                == orig.to_multiset(),
            sorted_desc(summaries_view(out@)),
            forall|i: int, j: int|
                0 <= i < out@.len() && 0 <= j < src@.len() ==> (#[trigger] summaries_view(
                    out@,
                )[i]).updated_at >= (#[trigger] summaries_view(src@)[j]).updated_at,
        decreases src.len(),
    {
        let mut best: usize = 0;
        let mut c: usize = 1;
        while c < src.len()
            invariant
                best < c <= src@.len(),
                src@.len() > 0,
                forall|j: int|
                    0 <= j < c ==> src@[best as int]@.updated_at >= (#[trigger] src@[j]@).updated_at,
            decreases src.len() - c,
        {
            if src[c].updated_at > src[best].updated_at {
                best = c;
            }
            c = c + 1;
        }
        let ghost pre_src = summaries_view(src@);
        let ghost pre_out = summaries_view(out@);
        let item = src.remove(best);
        let ghost iv = item@;
        out.push(item);
        proof {
            broadcast use vstd::seq_lib::group_to_multiset_ensures;

            assert(summaries_view(src@) =~= pre_src.remove(best as int));
            assert(summaries_view(out@) =~= pre_out.push(iv));
            assert(pre_src.remove(best as int).to_multiset() =~= pre_src.to_multiset().remove(iv));
            assert(pre_out.push(iv).to_multiset() =~= pre_out.to_multiset().insert(iv));
            assert(pre_src.to_multiset().count(iv) > 0) by {
                assert(pre_src[best as int] == iv);
                assert(pre_src.contains(iv));
            }
            assert(pre_out.to_multiset().insert(iv).add(pre_src.to_multiset().remove(iv))
                =~= pre_out.to_multiset().add(pre_src.to_multiset()));
            assert forall|i: int, j: int|
                0 <= i < out@.len() && 0 <= j < src@.len() implies (#[trigger] summaries_view(
                out@,
            )[i]).updated_at >= (#[trigger] summaries_view(src@)[j]).updated_at by {
                assert(summaries_view(src@)[j] == if j < best {
                    pre_src[j]
                } else {
                    pre_src[j + 1]
                });
                if i < pre_out.len() {
                    assert(summaries_view(out@)[i] == pre_out[i]);
                } else {
                    assert(summaries_view(out@)[i] == iv);
                    assert(iv.updated_at >= summaries_view(src@)[j].updated_at);
                }
            }
            assert(sorted_desc(summaries_view(out@))) by {
                assert forall|i: int, j: int|
                    0 <= i <= j < summaries_view(out@).len() implies (#[trigger] summaries_view(
                    out@,
                )[i]).updated_at >= (#[trigger] summaries_view(out@)[j]).updated_at by {
                    if j < pre_out.len() {
                        assert(summaries_view(out@)[i] == pre_out[i]);
                        assert(summaries_view(out@)[j] == pre_out[j]);
                    } else if i < pre_out.len() {
                        assert(summaries_view(out@)[i] == pre_out[i]);
                        assert(summaries_view(out@)[j] == iv);
                        assert(pre_out[i].updated_at >= pre_src[best as int].updated_at);
                    }
                }
            }
        }
    }
    proof {
        assert(summaries_view(src@) =~= Seq::<SessionMetadataV>::empty());
        assert(summaries_view(out@).to_multiset().add(
            Seq::<SessionMetadataV>::empty().to_multiset(),
        ) =~= summaries_view(out@).to_multiset());
    }
    out
}

/// Naming scheme and format of the durable session store. The directory
/// path is held for the surrounding process, which performs the reads,
/// writes, copies and deletions under these names.
pub struct SessionManager {
    pub sessions_dir: String,
}

impl SessionManager {
    /// A store rooted at the given directory path.
    pub fn new(sessions_dir: String) -> (r: SessionManager)
        ensures
            r.sessions_dir@ == sessions_dir@,
    {
        SessionManager { sessions_dir }
    }

    /// The file name that stores the given session id.
    pub fn session_file_name(&self, session_id: &str) -> (r: String)
        ensures
            r@ == session_id@ + ".nrs"@,
    {
        let mut s = session_id.to_owned();
        s.append(".nrs");
        s
    }

    /// Serializes the envelope for a snapshot, stamped with the current
    /// instant: the file name and the full file text to be written.
    pub fn save_session(&self, session: &SessionState) -> (r: (String, String))
        ensures
            r.0@ == session@.id + ".nrs"@,
            exists|now: i64| r.1@ == spec_encode_file("1.0"@, session@, now),
    {
        let now = now_millis();
        let text = encode_session_file(nrs_version(), session, now);
        let name = self.session_file_name(session.id.as_str());
        proof {
            assert(text@ == spec_encode_file("1.0"@, session@, now));
        }
        (name, text)
    }

    /// Decodes a stored session file back to the snapshot it holds. A
    /// version mismatch is tolerated: the snapshot is returned as it is.
    /// Fails with a decode error exactly when the text is malformed.
    pub fn load_session(&self, text: &str) -> (r: Result<SessionState, CoreError>)
        ensures
            match r {
                Ok(s) => spec_decode_file(text@) is Some && s@ == spec_decode_file(
                    text@,
                )->Some_0.1,
                Err(e) => spec_decode_file(text@) is None && e == CoreError::DecodeError,
            },
    {
        match decode_session_file(text) {
            Ok((_version, session, _saved_at)) => Ok(session),
            Err(e) => Err(e),
        }
    }

    /// The summaries of every decodable file text, sorted by update
    /// instant descending; corrupt texts are skipped, never an error.
    pub fn list_sessions(&self, texts: &Vec<String>) -> (r: Vec<SessionMetadata>)
        ensures
            sorted_desc(summaries_view(r@)),
            summaries_view(r@).to_multiset() == spec_summaries(
                texts@.map_values(|t: String| t@),
            ).to_multiset(),
    {
        let ghost tview = texts@.map_values(|t: String| t@);
        let mut found: Vec<SessionMetadata> = Vec::new();
        let mut i: usize = 0;
        proof {
            assert(summaries_view(found@) =~= spec_summaries(tview.take(0)));
        }
        while i < texts.len()
            invariant
                i <= texts@.len(),
                tview == texts@.map_values(|t: String| t@),
                summaries_view(found@) == spec_summaries(tview.take(i as int)),
            decreases texts@.len() - i,
        {
            let ghost prefix = tview.take(i as int);
            match summary_from_text(texts[i].as_str()) {
                Ok(m) => {
                    let ghost mv = m@;
                    let ghost pre = summaries_view(found@);
                    found.push(m);
                    proof {
                        assert(summaries_view(found@) =~= pre.push(mv));
                        lemma_spec_summaries_snoc(tview, i as int);
                        assert(pre.push(mv) =~= pre + seq![mv]);
                    }
                },
                Err(_) => {
                    proof {
                        lemma_spec_summaries_snoc(tview, i as int);
                        assert(summaries_view(found@) + Seq::<SessionMetadataV>::empty()
                            =~= summaries_view(found@));
                    }
                },
            }
            i = i + 1;
        }
        proof {
            assert(tview.take(i as int) =~= tview);
        }
        sort_summaries_desc(found)
    }

    /// The name of an export file for a session, stamped at the given
    /// instant: `<id>_<YYYYMMDD_HHMMSS>.nrs` for representable instants,
    /// with the raw non-negative millisecond count as the stamp otherwise.
    pub fn export_file_name_at(&self, session_id: &str, ms: i64) -> (r: String)
        ensures
            r@ == session_id@ + seq!['_'] + export_stamp(ms) + ".nrs"@,
    {
        let mut s = session_id.to_owned();
        s.append("_");
        if 0 <= ms && ms <= MAX_STAMP_MILLIS {
            let stamp = format_compact_stamp(ms);
            s.append(stamp.as_str());
        } else {
            let clamped: u64 = if ms > 0 {
                ms as u64
            } else {
                0
            };
            append_u64(&mut s, clamped);
        }
        s.append(".nrs");
        proof {
            reveal_strlit("_");
            assert(s@ =~= session_id@ + seq!['_'] + export_stamp(ms) + ".nrs"@);
        }
        s
    }

    /// The name of an export file for a session, stamped now.
    pub fn export_file_name(&self, session_id: &str) -> (r: String)
        ensures
            exists|ms: i64| r@ == session_id@ + seq!['_'] + export_stamp(ms) + ".nrs"@,
    {
        let now = now_millis();
        self.export_file_name_at(session_id, now)
    }
}

/// The stamp an export name carries for an instant.
pub open spec fn export_stamp(ms: i64) -> Seq<char> {
    if 0 <= ms <= MAX_STAMP_MILLIS {
        compact_stamp(ms as int)
    } else if ms > 0 {
        dec_digits(ms as nat)
    } else {
        dec_digits(0)
    }
}

/// Appending one more text extends the summary list by that text's
/// summary when it decodes, and by nothing when it does not.
proof fn lemma_spec_summaries_snoc(texts: Seq<Seq<char>>, i: int)
    requires
        0 <= i < texts.len(),
    ensures
        spec_summaries(texts.take(i + 1)) == (match spec_decode_file(texts[i]) {
            Option::Some(f) => spec_summaries(texts.take(i)) + seq![summary_of(f.1)],
            Option::None => spec_summaries(texts.take(i)),
        }),
    decreases i,
{
    if i == 0 {
        assert(texts.take(1)[0] == texts[0]);
        assert(texts.take(1).drop_first() =~= Seq::<Seq<char>>::empty());
        assert(spec_summaries(Seq::<Seq<char>>::empty()) =~= Seq::<SessionMetadataV>::empty());
        match spec_decode_file(texts[0]) {
            Option::Some(f) => {
                assert(spec_summaries(texts.take(1)) =~= seq![summary_of(f.1)]);
                assert(spec_summaries(texts.take(0)) =~= Seq::<SessionMetadataV>::empty());
                assert(Seq::<SessionMetadataV>::empty() + seq![summary_of(f.1)] =~= seq![
                    summary_of(f.1),
                ]);
            },
            Option::None => {
                assert(spec_summaries(texts.take(1)) =~= spec_summaries(texts.take(0)));
            },
        }
    } else {
        lemma_spec_summaries_snoc(texts.drop_first(), i - 1);
        assert(texts.take(i + 1)[0] == texts[0]);
        assert(texts.take(i + 1).drop_first() =~= texts.drop_first().take(i));
        assert(texts.take(i)[0] == texts[0]);
        assert(texts.take(i).drop_first() =~= texts.drop_first().take(i - 1));
        assert(texts.drop_first()[i - 1] == texts[i]);
        match spec_decode_file(texts[i]) {
            Option::Some(f) => {
                match spec_decode_file(texts[0]) {
                    Option::Some(g) => {
                        assert(spec_summaries(texts.take(i + 1)) == seq![summary_of(g.1)]
                            + spec_summaries(texts.drop_first().take(i)));
                        assert(seq![summary_of(g.1)] + (spec_summaries(
                            texts.drop_first().take(i - 1),
                        ) + seq![summary_of(f.1)]) =~= (seq![summary_of(g.1)] + spec_summaries(
                            texts.drop_first().take(i - 1),
                        )) + seq![summary_of(f.1)]);
                    },
                    Option::None => {
                    },
                }
            },
            Option::None => {
            },
        }
    }
}

} // verus!
