//! The session list of the Timeline: one summary per session file, newest
//! first.

use vstd::prelude::*;

use crate::ids::{ulid_string, ulid_text};
use crate::session::reader::ReadOutcome;
use crate::session::types::{SessionFile, WallTime};

verus! {

/// What the session list shows of one session.
pub struct SessionSummary {
    /// The session's ULID as text.
    pub id: String,
    pub server_id: String,
    pub server_name: String,
    pub client_name: String,
    pub started_at: WallTime,
    pub ended_at: Option<WallTime>,
    pub action_count: u64,
    pub denied_count: u64,
    pub error_count: u64,
    pub duration_ms: u64,
    /// `complete` or `truncated`, as the file was read.
    pub status: &'static str,
    /// Where the file is.
    pub path: String,
}

/// The summary of a session read from `path`: identity and times from the
/// meta record, counts and duration from the statistics (the number of
/// actions and zeros when there are none), and whether the file was
/// complete.
pub open spec fn summarizes(s: SessionSummary, f: SessionFile, truncated: bool, path: Seq<char>) -> bool {
    &&& s.id@ == ulid_text(f.session.id.0)
    &&& s.server_id@ == f.session.server.id@
    &&& s.server_name@ == f.session.server.name@
    &&& s.client_name@ == f.session.client.name@
    &&& s.started_at == f.session.started_at
    &&& s.ended_at == f.session.ended_at
    &&& s.action_count == match f.stats {
        Some(st) => st.total_actions,
        None => f.actions@.len() as u64,
    }
    &&& s.denied_count == match f.stats {
        Some(st) => st.denied_count,
        None => 0,
    }
    &&& s.error_count == match f.stats {
        Some(st) => st.error_count,
        None => 0,
    }
    &&& s.duration_ms == match f.stats {
        Some(st) => st.duration_ms,
        None => 0,
    }
    &&& s.status@ == if truncated { "truncated"@ } else { "complete"@ }
    &&& s.path@ == path
}

/// The counts of a summary come from the file's statistics when it has
/// them (each count from its own field), and otherwise are the number of
/// actions read (which a file in memory always fits), with no denials, no
/// errors and no duration.
pub proof fn lemma_summary_counts(s: SessionSummary, f: SessionFile, truncated: bool, path: Seq<char>)
    requires
        summarizes(s, f, truncated, path),
    ensures
        f.stats matches Some(st) ==> {
            &&& s.action_count == st.total_actions
            &&& s.denied_count == st.denied_count
            &&& s.error_count == st.error_count
            &&& s.duration_ms == st.duration_ms
        },
        f.stats is None ==> {
            &&& f.actions@.len() <= u64::MAX ==> s.action_count == f.actions@.len()
            &&& s.denied_count == 0
            &&& s.error_count == 0
            &&& s.duration_ms == 0
        },
{
}

/// Summarizes a session file that was read from `path`.
pub fn session_summary(outcome: &ReadOutcome, path: &str) -> (s: SessionSummary)
    ensures
        match outcome {
            ReadOutcome::Complete(f) => summarizes(s, *f, false, path@),
            ReadOutcome::Truncated(f) => summarizes(s, *f, true, path@),
        },
{
    let (f, status): (&SessionFile, &'static str) = match outcome {
        ReadOutcome::Complete(f) => (f, "complete"),
        ReadOutcome::Truncated(f) => (f, "truncated"),
    };
    let (action_count, denied_count, error_count, duration_ms) = match &f.stats {
        Some(st) => (st.total_actions, st.denied_count, st.error_count, st.duration_ms),
        None => (f.actions.len() as u64, 0, 0, 0),
    };
    SessionSummary {
        id: ulid_string(f.session.id),
        server_id: f.session.server.id.clone(),
        server_name: f.session.server.name.clone(),
        client_name: f.session.client.name.clone(),
        started_at: f.session.started_at,
        ended_at: f.session.ended_at,
        action_count,
        denied_count,
        error_count,
        duration_ms,
        status,
        path: crate::text::owned(path),
    }
}

/// `a` started later than `b`.
pub open spec fn later(a: WallTime, b: WallTime) -> bool {
    a.secs > b.secs || (a.secs == b.secs && a.nanos > b.nanos)
}

/// Where a summary starting at `t` goes in `s`: after every summary that
/// started no earlier.
pub open spec fn newest_pos(s: Seq<SessionSummary>, t: WallTime) -> int
    decreases s.len(),
{
    if s.len() == 0 {
        0
    } else if !later(t, s.last().started_at) {
        s.len() as int
    } else {
        newest_pos(s.drop_last(), t)
    }
}

/// `s` ordered newest first; summaries that started at the same time keep
/// their order (a stable sort).
pub open spec fn newest_first(s: Seq<SessionSummary>) -> Seq<SessionSummary>
    decreases s.len(),
{
    if s.len() == 0 {
        s
    } else {
        let t = newest_first(s.drop_last());
        t.insert(newest_pos(t, s.last().started_at), s.last())
    }
}

proof fn lemma_newest_pos_bounds(s: Seq<SessionSummary>, t: WallTime)
    ensures
        0 <= newest_pos(s, t) <= s.len(),
    decreases s.len(),
{
    if s.len() > 0 && later(t, s.last().started_at) {
        lemma_newest_pos_bounds(s.drop_last(), t);
    }
}

/// `s` runs newest first: no summary started later than one before it.
pub open spec fn runs_newest_first(s: Seq<SessionSummary>) -> bool {
    forall|i: int, j: int| 0 <= i < j < s.len() ==> !later(#[trigger] s[j].started_at, #[trigger] s[i].started_at)
}

proof fn lemma_newest_pos(s: Seq<SessionSummary>, t: WallTime)
    requires
        runs_newest_first(s),
    ensures
        0 <= newest_pos(s, t) <= s.len(),
        forall|i: int| 0 <= i < newest_pos(s, t) ==> !later(t, #[trigger] s[i].started_at),
        forall|i: int| newest_pos(s, t) <= i < s.len() ==> later(t, #[trigger] s[i].started_at),
    decreases s.len(),
{
    if s.len() > 0 {
        let d = s.drop_last();
        if later(t, s.last().started_at) {
            assert(runs_newest_first(d)) by {
                assert forall|i: int, j: int| 0 <= i < j < d.len() implies !later(#[trigger] d[j].started_at, #[trigger] d[i].started_at) by {
                    assert(d[i] == s[i] && d[j] == s[j]);
                }
            }
            lemma_newest_pos(d, t);
            assert forall|i: int| 0 <= i < newest_pos(s, t) implies !later(t, #[trigger] s[i].started_at) by {
                assert(s[i] == d[i]);
            }
            assert forall|i: int| newest_pos(s, t) <= i < s.len() implies later(t, #[trigger] s[i].started_at) by {
                if i < d.len() {
                    assert(s[i] == d[i]);
                }
            }
        } else {
            assert forall|i: int| 0 <= i < newest_pos(s, t) implies !later(t, #[trigger] s[i].started_at) by {
                if i < s.len() - 1 {
                    assert(!later(s[s.len() - 1].started_at, s[i].started_at));
                }
            }
        }
    }
}

/// The session list comes out newest first and holds exactly the summaries
/// it was given, each as many times.
pub proof fn lemma_newest_first(s: Seq<SessionSummary>)
    ensures
        runs_newest_first(newest_first(s)),
        newest_first(s).to_multiset() == s.to_multiset(),
        newest_first(s).len() == s.len(),
    decreases s.len(),
{
    broadcast use vstd::seq_lib::to_multiset_insert, vstd::seq_lib::to_multiset_build;

    if s.len() > 0 {
        let t = newest_first(s.drop_last());
        let a = s.last();
        lemma_newest_first(s.drop_last());
        lemma_newest_pos(t, a.started_at);
        let p = newest_pos(t, a.started_at);
        let u = t.insert(p, a);
        assert forall|i: int, j: int| 0 <= i < j < u.len() implies !later(#[trigger] u[j].started_at, #[trigger] u[i].started_at) by {
            if j < p {
            } else if i < p && j == p {
            } else if i < p {
                assert(u[j] == t[j - 1]);
            } else if i == p {
                assert(u[j] == t[j - 1]);
            } else {
                assert(u[i] == t[i - 1]);
                assert(u[j] == t[j - 1]);
            }
        }
        assert(s == s.drop_last().push(a));
    }
}

/// Orders the session list newest first.
pub fn sort_newest_first(summaries: Vec<SessionSummary>) -> (r: Vec<SessionSummary>)
    ensures
        r@ == newest_first(summaries@),
        runs_newest_first(r@),
        r@.to_multiset() == summaries@.to_multiset(),
{
    proof {
        lemma_newest_first(summaries@);
    }
    let ghost all = summaries@;
    let n = summaries.len();
    let mut rest = summaries;
    let mut rev: Vec<SessionSummary> = Vec::new();
    while rest.len() > 0
        invariant
            rest@.len() + rev@.len() == n,
            n == all.len(),
            rest@ == all.take(rest@.len() as int),
            forall|k: int| 0 <= k < rev@.len() ==> #[trigger] rev@[k] == all[n - 1 - k],
        decreases rest.len(),
    {
        let x = rest.pop().unwrap();
        rev.push(x);
        assert(rest@ == all.take(rest@.len() as int));
    }
    let mut out: Vec<SessionSummary> = Vec::new();
    let mut i: usize = 0;
    assert(all.take(0) == Seq::<SessionSummary>::empty());
    while i < n
        invariant
            i <= n,
            n == all.len(),
            rev@.len() == n - i,
            forall|k: int| 0 <= k < rev@.len() ==> #[trigger] rev@[k] == all[n - 1 - k],
            out@ == newest_first(all.take(i as int)),
        decreases n - i,
    {
        assert(rev@.last() == all[i as int]);
        let x = rev.pop().unwrap();
        assert(all.take(i + 1).drop_last() == all.take(i as int));
        assert(all.take(i + 1).last() == all[i as int]);
        let mut p: usize = out.len();
        assert(out@.take(p as int) == out@);
        while p > 0 && (x.started_at.secs > out[p - 1].started_at.secs || (x.started_at.secs
            == out[p - 1].started_at.secs && x.started_at.nanos > out[p - 1].started_at.nanos))
            invariant
                p <= out.len(),
                newest_pos(out@, x.started_at) == newest_pos(out@.take(p as int), x.started_at),
            decreases p,
        {
            assert(out@.take(p as int).drop_last() == out@.take(p - 1));
            p = p - 1;
        }
        proof {
            if p > 0 {
                assert(out@.take(p as int).last() == out@[p - 1]);
            }
            lemma_newest_pos_bounds(out@, x.started_at);
        }
        out.insert(p, x);
        i = i + 1;
    }
    assert(all.take(n as int) == all);
    out
}

} // verus!
