//! Reading NDJSON session files, tolerant of truncation.
//!
//! A session file is `meta`, then `action` records, then `end`. A process
//! that dies before writing `end` leaves a truncated file, possibly with a
//! torn last line: reading stops at the first line that cannot be read or
//! decoded, and such a session is reported as [`ReadOutcome::Truncated`]
//! with statistics recomputed from its actions. Blank lines and lines that
//! start with `#` are skipped. Actions come out ordered by `seq`, ties in
//! file order, whatever order they were written in.
//!
//! The caller reads the lines and decodes each (trimmed) into a record; this
//! module decides what the lines make.

use vstd::prelude::*;

use crate::error::AppError;
use crate::text::{chars_of, decimal, owned, push_all, trim, trim_chars, u64_to_decimal};

use super::types::{Action, Kind, NdjsonRecord, Outcome, SessionFile, SessionMeta, Stats, WallTime};

verus! {

/// One line of a session file as the caller read it.
pub enum NdjsonLine {
    /// The line could not be read.
    Unreadable,
    /// The line's text, and the record that the text, trimmed, decodes to
    /// (`None` when it does not decode).
    Text { text: String, record: Option<NdjsonRecord> },
}

/// What reading a session file gave.
pub enum ReadOutcome {
    /// `meta`, actions and `end`; the statistics are the writer's.
    Complete(SessionFile),
    /// No `end` record; `ended_at` is unset and the statistics are
    /// recomputed from the actions.
    Truncated(SessionFile),
}

impl ReadOutcome {
    /// The session, complete or not.
    pub fn into_file(self) -> (f: SessionFile)
        ensures
            f == match self {
                ReadOutcome::Complete(g) => g,
                ReadOutcome::Truncated(g) => g,
            },
    {
        match self {
            ReadOutcome::Complete(f) => f,
            ReadOutcome::Truncated(f) => f,
        }
    }

    pub fn is_truncated(&self) -> (b: bool)
        ensures
            b == self is Truncated,
    {
        match self {
            ReadOutcome::Complete(_) => false,
            ReadOutcome::Truncated(_) => true,
        }
    }
}

// ---------------------------------------------------------------------------
// The reading, as a fold over the lines
// ---------------------------------------------------------------------------

/// Where reading stands after some lines.
pub enum Scan {
    /// Still reading: the meta record seen (if any) and the actions so far.
    Reading { meta: Option<(String, SessionMeta)>, actions: Seq<Action> },
    /// Reading stopped: at a line that could not be read or decoded (no
    /// `end`), or at the `end` record.
    Ended { meta: Option<(String, SessionMeta)>, actions: Seq<Action>, end: Option<(WallTime, Stats)> },
    /// The file is malformed; the error message.
    Malformed(Seq<char>),
}

/// A blank line or a comment.
pub open spec fn ignorable(text: Seq<char>) -> bool {
    trim(text).len() == 0 || trim(text)[0] == '#'
}

pub open spec fn duplicate_meta_message(lineno: nat) -> Seq<char> {
    "session reader: duplicate meta record at line "@ + decimal(lineno)
}

/// Where the first `.` of `v` is (`v.len()` when there is none).
pub open spec fn first_dot(v: Seq<char>) -> int
    decreases v.len(),
{
    if v.len() == 0 {
        0
    } else if v[0] == '.' {
        0
    } else {
        1 + first_dot(v.drop_first())
    }
}

/// The major version of a `schema_version`: the text before its first `.`.
pub open spec fn major_part(v: Seq<char>) -> Seq<char> {
    v.take(first_dot(v))
}

/// The major version is a number above 0: nonempty, all ASCII digits, and
/// not all of them `0`.
pub open spec fn major_above_zero(v: Seq<char>) -> bool {
    let m = major_part(v);
    &&& m.len() > 0
    &&& forall|i: int| 0 <= i < m.len() ==> '0' <= #[trigger] m[i] <= '9'
    &&& exists|i: int| 0 <= i < m.len() && #[trigger] m[i] != '0'
}

pub open spec fn unsupported_version_message(v: Seq<char>) -> Seq<char> {
    "session reader: unsupported schema_version "@ + v + " (this reader reads major version 0)"@
}

proof fn lemma_first_dot(v: Seq<char>, i: int)
    requires
        0 <= i <= v.len(),
        forall|j: int| 0 <= j < i ==> v[j] != '.',
        i == v.len() || v[i] == '.',
    ensures
        first_dot(v) == i,
    decreases i,
{
    if i > 0 {
        let t = v.drop_first();
        assert forall|j: int| 0 <= j < i - 1 implies t[j] != '.' by {
            assert(t[j] == v[j + 1]);
        }
        if i < v.len() {
            assert(t[i - 1] == v[i]);
        }
        lemma_first_dot(t, i - 1);
        assert(v[0] != '.');
    }
}

/// Refuses a `schema_version` whose major version is higher than the one
/// this reader understands (0); any other version is read.
pub fn check_schema_version(version: &str) -> (r: Result<(), AppError>)
    ensures
        major_above_zero(version@) ==> (r matches Err(AppError::Internal(m)) && m@ == unsupported_version_message(version@)),
        !major_above_zero(version@) ==> r is Ok,
{
    let cs = chars_of(version);
    let mut i: usize = 0;
    let mut digits = true;
    let mut nonzero = false;
    while i < cs.len() && cs[i] != '.'
        invariant
            i <= cs.len(),
            cs@ == version@,
            forall|j: int| 0 <= j < i ==> cs@[j] != '.',
            digits == (forall|j: int| 0 <= j < i ==> '0' <= #[trigger] cs@[j] <= '9'),
            nonzero == (exists|j: int| 0 <= j < i && #[trigger] cs@[j] != '0'),
        decreases cs.len() - i,
    {
        let c = cs[i];
        if !('0' <= c && c <= '9') {
            digits = false;
        }
        if c != '0' {
            nonzero = true;
        }
        proof {
            if !digits && '0' <= c && c <= '9' {
                let j = choose|j: int| 0 <= j < i && !('0' <= #[trigger] cs@[j] <= '9');
                assert(0 <= j < i + 1);
            }
            if nonzero && c == '0' {
                let j = choose|j: int| 0 <= j < i && #[trigger] cs@[j] != '0';
                assert(0 <= j < i + 1);
            }
        }
        i = i + 1;
    }
    proof {
        lemma_first_dot(version@, i as int);
        let m = major_part(version@);
        assert(m.len() == i);
        assert forall|j: int| 0 <= j < m.len() implies m[j] == cs@[j] by {}
        if digits {
            assert forall|j: int| 0 <= j < m.len() implies '0' <= #[trigger] m[j] <= '9' by {
                assert(m[j] == cs@[j]);
            }
        } else {
            let j = choose|j: int| 0 <= j < i && !('0' <= #[trigger] cs@[j] <= '9');
            assert(m[j] == cs@[j]);
        }
        if nonzero {
            let j = choose|j: int| 0 <= j < i && #[trigger] cs@[j] != '0';
            assert(m[j] == cs@[j]);
        } else {
            assert forall|j: int| 0 <= j < m.len() implies #[trigger] m[j] == '0' by {
                assert(m[j] == cs@[j]);
            }
        }
    }
    if i > 0 && digits && nonzero {
        let mut m = owned("session reader: unsupported schema_version ");
        push_all(&mut m, version);
        push_all(&mut m, " (this reader reads major version 0)");
        Err(AppError::Internal(m))
    } else {
        Ok(())
    }
}

/// Reading line number `lineno` (1-based).
pub open spec fn step(s: Scan, line: NdjsonLine, lineno: nat) -> Scan {
    match s {
        Scan::Reading { meta, actions } => match line {
            NdjsonLine::Unreadable => Scan::Ended { meta, actions, end: None },
            NdjsonLine::Text { text, record } => if ignorable(text@) {
                s
            } else {
                match record {
                    None => Scan::Ended { meta, actions, end: None },
                    Some(NdjsonRecord::Meta { schema_version, session }) => if meta is Some {
                        Scan::Malformed(duplicate_meta_message(lineno))
                    } else if major_above_zero(schema_version@) {
                        Scan::Malformed(unsupported_version_message(schema_version@))
                    } else {
                        Scan::Reading { meta: Some((schema_version, session)), actions }
                    },
                    Some(NdjsonRecord::Action { action }) => if meta is None {
                        Scan::Malformed("session reader: action record before meta"@)
                    } else {
                        Scan::Reading { meta, actions: actions.push(action) }
                    },
                    Some(NdjsonRecord::End { ended_at, stats }) => Scan::Ended {
                        meta,
                        actions,
                        end: Some((ended_at, stats)),
                    },
                }
            },
        },
        _ => s,
    }
}

/// Where reading stands after `lines`.
pub open spec fn scan(lines: Seq<NdjsonLine>) -> Scan
    decreases lines.len(),
{
    if lines.len() == 0 {
        Scan::Reading { meta: None, actions: Seq::empty() }
    } else {
        step(scan(lines.drop_last()), lines.last(), lines.len())
    }
}

/// Once reading has stopped, later lines change nothing.
proof fn lemma_scan_stays(lines: Seq<NdjsonLine>, i: int)
    requires
        0 <= i <= lines.len(),
        !(scan(lines.take(i)) is Reading),
    ensures
        scan(lines) == scan(lines.take(i)),
    decreases lines.len() - i,
{
    if i < lines.len() {
        assert(lines.take(i + 1).drop_last() == lines.take(i));
        lemma_scan_stays(lines, i + 1);
    } else {
        assert(lines.take(i) == lines);
    }
}

// ---------------------------------------------------------------------------
// Ordering by seq
// ---------------------------------------------------------------------------

/// Where an action with sequence number `k` goes in `s`: after the last
/// element whose `seq` is at most `k`.
pub open spec fn insert_pos(s: Seq<Action>, k: u64) -> int
    decreases s.len(),
{
    if s.len() == 0 {
        0
    } else if s.last().seq <= k {
        s.len() as int
    } else {
        insert_pos(s.drop_last(), k)
    }
}

/// `s` ordered by `seq`, equal numbers in their order in `s` (a stable sort).
pub open spec fn sort_by_seq(s: Seq<Action>) -> Seq<Action>
    decreases s.len(),
{
    if s.len() == 0 {
        s
    } else {
        let t = sort_by_seq(s.drop_last());
        t.insert(insert_pos(t, s.last().seq), s.last())
    }
}

pub open spec fn sorted_by_seq(s: Seq<Action>) -> bool {
    forall|i: int, j: int| 0 <= i <= j < s.len() ==> #[trigger] s[i].seq <= #[trigger] s[j].seq
}

proof fn lemma_insert_pos(s: Seq<Action>, k: u64)
    requires
        sorted_by_seq(s),
    ensures
        0 <= insert_pos(s, k) <= s.len(),
        forall|i: int| 0 <= i < insert_pos(s, k) ==> #[trigger] s[i].seq <= k,
        forall|i: int| insert_pos(s, k) <= i < s.len() ==> #[trigger] s[i].seq > k,
    decreases s.len(),
{
    if s.len() > 0 {
        let d = s.drop_last();
        if s.last().seq > k {
            assert(sorted_by_seq(d));
            lemma_insert_pos(d, k);
            assert forall|i: int| 0 <= i < insert_pos(s, k) implies #[trigger] s[i].seq <= k by {
                assert(s[i] == d[i]);
            }
            assert forall|i: int| insert_pos(s, k) <= i < s.len() implies #[trigger] s[i].seq > k by {
                if i < d.len() {
                    assert(s[i] == d[i]);
                }
            }
        } else {
            assert forall|i: int| 0 <= i < insert_pos(s, k) implies #[trigger] s[i].seq <= k by {
                assert(s[i].seq <= s[s.len() - 1].seq);
            }
        }
    }
}

proof fn lemma_insert_pos_bounds(s: Seq<Action>, k: u64)
    ensures
        0 <= insert_pos(s, k) <= s.len(),
    decreases s.len(),
{
    if s.len() > 0 && s.last().seq > k {
        lemma_insert_pos_bounds(s.drop_last(), k);
    }
}

/// Reading orders actions by `seq` and keeps each of them: the result is
/// sorted and holds exactly the actions read, as many times each.
pub proof fn lemma_sort_by_seq(s: Seq<Action>)
    ensures
        sorted_by_seq(sort_by_seq(s)),
        sort_by_seq(s).to_multiset() == s.to_multiset(),
        sort_by_seq(s).len() == s.len(),
    decreases s.len(),
{
    broadcast use vstd::seq_lib::to_multiset_insert, vstd::seq_lib::to_multiset_build;

    if s.len() > 0 {
        let t = sort_by_seq(s.drop_last());
        let a = s.last();
        lemma_sort_by_seq(s.drop_last());
        lemma_insert_pos(t, a.seq);
        let p = insert_pos(t, a.seq);
        let u = t.insert(p, a);
        assert forall|i: int, j: int| 0 <= i <= j < u.len() implies #[trigger] u[i].seq <= #[trigger] u[j].seq by {
            if i < p && j < p {
            } else if i < p && j == p {
            } else if i < p {
                assert(u[j] == t[j - 1]);
            } else if i == p && j == p {
            } else if i == p {
                assert(u[j] == t[j - 1]);
            } else {
                assert(u[i] == t[i - 1]);
                assert(u[j] == t[j - 1]);
            }
        }
        assert(s == s.drop_last().push(a));
    }
}

/// Actions already in `seq` order come out as they went in.
pub proof fn lemma_sort_by_seq_sorted_input(s: Seq<Action>)
    requires
        sorted_by_seq(s),
    ensures
        sort_by_seq(s) == s,
    decreases s.len(),
{
    if s.len() > 0 {
        let d = s.drop_last();
        assert(sorted_by_seq(d));
        lemma_sort_by_seq_sorted_input(d);
        assert(insert_pos(d, s.last().seq) == d.len()) by {
            if d.len() > 0 {
                assert(d.last().seq <= s.last().seq);
            }
        }
        assert(d.insert(d.len() as int, s.last()) == s);
    }
}

fn insert_by_seq(v: &mut Vec<Action>, a: Action)
    ensures
        final(v)@ == old(v)@.insert(insert_pos(old(v)@, a.seq), a),
{
    let mut p: usize = v.len();
    assert(v@.take(p as int) == v@);
    while p > 0 && v[p - 1].seq > a.seq
        invariant
            p <= v.len(),
            insert_pos(v@, a.seq) == insert_pos(v@.take(p as int), a.seq),
        decreases p,
    {
        assert(v@.take(p as int).drop_last() == v@.take(p - 1));
        p = p - 1;
    }
    proof {
        if p > 0 {
            assert(v@.take(p as int).last() == v@[p - 1]);
        }
        lemma_insert_pos_bounds(v@, a.seq);
    }
    assert(v@ == v@.take(v.len() as int));
    v.insert(p, a);
}

// ---------------------------------------------------------------------------
// Scanning
// ---------------------------------------------------------------------------

/// The records of a session file, before its statistics are settled.
pub struct Scanned {
    pub schema_version: String,
    pub session: SessionMeta,
    /// Ordered by `seq`.
    pub actions: Vec<Action>,
    pub end: Option<(WallTime, Stats)>,
}

/// What scanning yields once reading stopped with `meta`, `actions` and
/// `end`.
pub open spec fn scanned_as(
    r: Result<Scanned, AppError>,
    meta: Option<(String, SessionMeta)>,
    actions: Seq<Action>,
    end: Option<(WallTime, Stats)>,
) -> bool {
    match meta {
        None => r matches Err(AppError::Internal(e)) && e@ == "session reader: file has no meta record"@,
        Some(m) => r matches Ok(s) && s.schema_version == m.0 && s.session == m.1 && s.actions@ == sort_by_seq(
            actions,
        ) && s.end == end,
    }
}

/// The result of scanning `lines`.
pub open spec fn scan_result(r: Result<Scanned, AppError>, lines: Seq<NdjsonLine>) -> bool {
    match scan(lines) {
        Scan::Malformed(m) => r matches Err(AppError::Internal(e)) && e@ == m,
        Scan::Reading { meta, actions } => scanned_as(r, meta, actions, None),
        Scan::Ended { meta, actions, end } => scanned_as(r, meta, actions, end),
    }
}

fn is_ignorable(text: &str) -> (b: bool)
    ensures
        b == ignorable(text@),
{
    let t = trim_chars(&chars_of(text));
    t.len() == 0 || t[0] == '#'
}

/// Reads the records of a session file. A second `meta` record, a `meta`
/// whose schema major version is above 0, or an action before any `meta`,
/// is an error; so is a file without `meta`.
pub fn scan_ndjson(lines: Vec<NdjsonLine>) -> (r: Result<Scanned, AppError>)
    ensures
        scan_result(r, lines@),
{
    let ghost all = lines@;
    let n = lines.len();
    // Reverse the lines so that popping yields them in order.
    let mut rest = lines;
    let mut rev: Vec<NdjsonLine> = Vec::new();
    while rest.len() > 0
        invariant
            rest@.len() + rev@.len() == n,
            n == all.len(),
            rest@ == all.take(rest@.len() as int),
            forall|k: int| 0 <= k < rev@.len() ==> #[trigger] rev@[k] == all[n - 1 - k],
        decreases rest.len(),
    {
        let x = rest.pop().unwrap();
        rev.push(x);
        assert(rest@ == all.take(rest@.len() as int));
    }
    let mut meta: Option<(String, SessionMeta)> = None;
    let mut actions: Vec<Action> = Vec::new();
    let mut end: Option<(WallTime, Stats)> = None;
    let ghost mut collected: Seq<Action> = Seq::empty();
    let mut ended = false;
    let mut i: usize = 0;
    while !ended && i < n
        invariant
            i <= n,
            n == all.len(),
            all == lines@,
            rev@.len() == n - i,
            forall|k: int| 0 <= k < rev@.len() ==> #[trigger] rev@[k] == all[n - 1 - k],
            actions@ == sort_by_seq(collected),
            ended ==> scan(all.take(i as int)) == (Scan::Ended { meta, actions: collected, end }),
            !ended ==> scan(all.take(i as int)) == (Scan::Reading { meta, actions: collected }),
            !ended ==> end is None,
        decreases n - i,
    {
        assert(rev@.last() == all[i as int]);
        let line = rev.pop().unwrap();
        assert(all.take(i + 1).drop_last() == all.take(i as int));
        assert(all.take(i + 1).last() == all[i as int]);
        match line {
            NdjsonLine::Unreadable => {
                ended = true;
            },
            NdjsonLine::Text { text, record } => {
                if !is_ignorable(text.as_str()) {
                    match record {
                        None => {
                            ended = true;
                        },
                        Some(NdjsonRecord::Meta { schema_version, session }) => {
                            if meta.is_some() {
                                let mut msg = owned("session reader: duplicate meta record at line ");
                                let num = u64_to_decimal((i + 1) as u64);
                                push_all(&mut msg, num.as_str());
                                proof {
                                    assert(msg@ == duplicate_meta_message((i + 1) as nat));
                                    assert(scan(all.take(i + 1)) == Scan::Malformed(msg@));
                                    lemma_scan_stays(all, i + 1);
                                }
                                return Err(AppError::Internal(msg));
                            }
                            match check_schema_version(schema_version.as_str()) {
                                Err(e) => {
                                    proof {
                                        assert(scan(all.take(i + 1)) == Scan::Malformed(
                                            unsupported_version_message(schema_version@),
                                        ));
                                        lemma_scan_stays(all, i + 1);
                                    }
                                    return Err(e);
                                },
                                Ok(()) => {},
                            }
                            meta = Some((schema_version, session));
                        },
                        Some(NdjsonRecord::Action { action }) => {
                            if meta.is_none() {
                                let msg = owned("session reader: action record before meta");
                                proof {
                                    assert(scan(all.take(i + 1)) == Scan::Malformed(msg@));
                                    lemma_scan_stays(all, i + 1);
                                }
                                return Err(AppError::Internal(msg));
                            }
                            proof {
                                assert(collected.push(action).drop_last() == collected);
                                collected = collected.push(action);
                            }
                            insert_by_seq(&mut actions, action);
                        },
                        Some(NdjsonRecord::End { ended_at, stats }) => {
                            end = Some((ended_at, stats));
                            ended = true;
                        },
                    }
                }
            },
        }
        i = i + 1;
    }
    proof {
        if ended {
            lemma_scan_stays(all, i as int);
        } else {
            assert(all.take(i as int) == all);
        }
    }
    match meta {
        None => Err(AppError::Internal(owned("session reader: file has no meta record"))),
        Some((schema_version, session)) => Ok(Scanned { schema_version, session, actions, end }),
    }
}


// ---------------------------------------------------------------------------
// Recomputed statistics
// ---------------------------------------------------------------------------

pub open spec fn count_outcome(s: Seq<Action>, o: Outcome) -> nat
    decreases s.len(),
{
    if s.len() == 0 {
        0
    } else {
        count_outcome(s.drop_last(), o) + if s.last().outcome == o { 1nat } else { 0nat }
    }
}

pub open spec fn count_kind(s: Seq<Action>, k: Kind) -> nat
    decreases s.len(),
{
    if s.len() == 0 {
        0
    } else {
        count_kind(s.drop_last(), k) + if s.last().kind == k { 1nat } else { 0nat }
    }
}

/// A counter entry, present only when the count is not zero.
pub open spec fn entry(token: Seq<char>, n: nat) -> Seq<(Seq<char>, u64)> {
    if n > 0 {
        seq![(token, n as u64)]
    } else {
        Seq::empty()
    }
}

/// Counts by outcome, keyed by wire name in key order, zero counts left out.
pub open spec fn outcome_counts(s: Seq<Action>) -> Seq<(Seq<char>, u64)> {
    entry("cancelled"@, count_outcome(s, Outcome::Cancelled)) + entry("denied"@, count_outcome(s, Outcome::Denied))
        + entry("error"@, count_outcome(s, Outcome::Error)) + entry("ok"@, count_outcome(s, Outcome::Success))
        + entry("timeout"@, count_outcome(s, Outcome::Timeout)) + entry("unknown"@, count_outcome(s, Outcome::Unknown))
}

/// Counts by kind, keyed by wire name in key order, zero counts left out.
pub open spec fn kind_counts(s: Seq<Action>) -> Seq<(Seq<char>, u64)> {
    entry("completion"@, count_kind(s, Kind::Completion)) + entry("notification"@, count_kind(s, Kind::Notification))
        + entry("prompt_get"@, count_kind(s, Kind::PromptGet)) + entry("resource_list"@, count_kind(s, Kind::ResourceList))
        + entry("resource_read"@, count_kind(s, Kind::ResourceRead)) + entry(
        "sandbox_decision"@,
        count_kind(s, Kind::SandboxDecision),
    ) + entry("session_event"@, count_kind(s, Kind::SessionEvent)) + entry("tool_call"@, count_kind(s, Kind::ToolCall))
        + entry("unknown"@, count_kind(s, Kind::Unknown))
}

/// When an action ended on the monotonic clock.
pub open spec fn action_end(a: Action) -> int {
    a.ts_mono_ns + match a.duration_ns {
        Some(d) => d as int,
        None => 0,
    }
}

pub open spec fn max_end(s: Seq<Action>) -> int
    decreases s.len(),
{
    if s.len() == 0 {
        0
    } else {
        let m = max_end(s.drop_last());
        if action_end(s.last()) > m { action_end(s.last()) } else { m }
    }
}

/// Every action's end fits in 64 bits.
pub open spec fn ends_fit(s: Seq<Action>) -> bool {
    forall|i: int| 0 <= i < s.len() ==> action_end(#[trigger] s[i]) <= u64::MAX
}

pub open spec fn count_views(v: Seq<(String, u64)>) -> Seq<(Seq<char>, u64)> {
    v.map_values(|e: (String, u64)| (e.0@, e.1))
}

/// `st` is what the actions `s` make: their number, the counts by outcome
/// and by kind, denied and error counts, and the latest end in whole
/// milliseconds. The two floating-point averages are left at 0 for the
/// caller to fill in; bytes are not tracked.
pub open spec fn recomputed(st: Stats, s: Seq<Action>) -> bool {
    &&& st.total_actions == s.len()
    &&& count_views(st.by_outcome@) == outcome_counts(s)
    &&& count_views(st.by_kind@) == kind_counts(s)
    &&& st.denied_count == count_outcome(s, Outcome::Denied)
    &&& st.error_count == count_outcome(s, Outcome::Error)
    &&& st.duration_ms == max_end(s) / 1_000_000
    &&& st.avg_action_ms_bits == 0
    &&& st.p95_action_ms_bits == 0
    &&& st.bytes_in == 0
    &&& st.bytes_out == 0
}

pub(crate) fn count_outcomes(actions: &Vec<Action>, o: Outcome) -> (n: u64)
    ensures
        n == count_outcome(actions@, o),
{
    let mut n: u64 = 0;
    let mut i: usize = 0;
    while i < actions.len()
        invariant
            i <= actions.len(),
            n <= i,
            n == count_outcome(actions@.take(i as int), o),
        decreases actions.len() - i,
    {
        assert(actions@.take(i + 1).drop_last() == actions@.take(i as int));
        if actions[i].outcome == o {
            n = n + 1;
        }
        i = i + 1;
    }
    assert(actions@.take(i as int) == actions@);
    n
}

fn count_kinds(actions: &Vec<Action>, k: Kind) -> (n: u64)
    ensures
        n == count_kind(actions@, k),
{
    let mut n: u64 = 0;
    let mut i: usize = 0;
    while i < actions.len()
        invariant
            i <= actions.len(),
            n <= i,
            n == count_kind(actions@.take(i as int), k),
        decreases actions.len() - i,
    {
        assert(actions@.take(i + 1).drop_last() == actions@.take(i as int));
        if actions[i].kind == k {
            n = n + 1;
        }
        i = i + 1;
    }
    assert(actions@.take(i as int) == actions@);
    n
}

fn push_entry(out: &mut Vec<(String, u64)>, token: &str, n: u64)
    ensures
        count_views(final(out)@) == count_views(old(out)@) + entry(token@, n as nat),
{
    if n > 0 {
        out.push((owned(token), n));
        assert(count_views(out@) =~= count_views(old(out)@) + entry(token@, n as nat));
    } else {
        assert(count_views(out@) =~= count_views(old(out)@) + entry(token@, n as nat));
    }
}

/// The counts by outcome of `actions`, keyed by wire name in key order.
pub(crate) fn outcome_count_list(actions: &Vec<Action>) -> (v: Vec<(String, u64)>)
    ensures
        count_views(v@) == outcome_counts(actions@),
{
    let mut v: Vec<(String, u64)> = Vec::new();
    assert(count_views(v@) =~= Seq::<(Seq<char>, u64)>::empty());
    push_entry(&mut v, "cancelled", count_outcomes(actions, Outcome::Cancelled));
    push_entry(&mut v, "denied", count_outcomes(actions, Outcome::Denied));
    push_entry(&mut v, "error", count_outcomes(actions, Outcome::Error));
    push_entry(&mut v, "ok", count_outcomes(actions, Outcome::Success));
    push_entry(&mut v, "timeout", count_outcomes(actions, Outcome::Timeout));
    push_entry(&mut v, "unknown", count_outcomes(actions, Outcome::Unknown));
    assert(count_views(v@) =~= outcome_counts(actions@));
    v
}

/// The counts by kind of `actions`, keyed by wire name in key order.
pub(crate) fn kind_count_list(actions: &Vec<Action>) -> (v: Vec<(String, u64)>)
    ensures
        count_views(v@) == kind_counts(actions@),
{
    let mut v: Vec<(String, u64)> = Vec::new();
    assert(count_views(v@) =~= Seq::<(Seq<char>, u64)>::empty());
    push_entry(&mut v, "completion", count_kinds(actions, Kind::Completion));
    push_entry(&mut v, "notification", count_kinds(actions, Kind::Notification));
    push_entry(&mut v, "prompt_get", count_kinds(actions, Kind::PromptGet));
    push_entry(&mut v, "resource_list", count_kinds(actions, Kind::ResourceList));
    push_entry(&mut v, "resource_read", count_kinds(actions, Kind::ResourceRead));
    push_entry(&mut v, "sandbox_decision", count_kinds(actions, Kind::SandboxDecision));
    push_entry(&mut v, "session_event", count_kinds(actions, Kind::SessionEvent));
    push_entry(&mut v, "tool_call", count_kinds(actions, Kind::ToolCall));
    push_entry(&mut v, "unknown", count_kinds(actions, Kind::Unknown));
    assert(count_views(v@) =~= kind_counts(actions@));
    v
}

fn latest_end(actions: &Vec<Action>) -> (m: u64)
    requires
        ends_fit(actions@),
    ensures
        m == max_end(actions@),
{
    let mut m: u64 = 0;
    let mut i: usize = 0;
    while i < actions.len()
        invariant
            i <= actions.len(),
            ends_fit(actions@),
            m == max_end(actions@.take(i as int)),
        decreases actions.len() - i,
    {
        assert(actions@.take(i + 1).drop_last() == actions@.take(i as int));
        let a = &actions[i];
        assert(action_end(actions@[i as int]) <= u64::MAX);
        let end: u64 = match a.duration_ns {
            Some(d) => a.ts_mono_ns + d,
            None => a.ts_mono_ns,
        };
        if end > m {
            m = end;
        }
        i = i + 1;
    }
    assert(actions@.take(i as int) == actions@);
    m
}

/// Statistics recomputed from the actions of a truncated session.
pub fn recompute_stats(actions: &Vec<Action>) -> (st: Stats)
    requires
        ends_fit(actions@),
    ensures
        recomputed(st, actions@),
{
    let by_outcome = outcome_count_list(actions);
    let by_kind = kind_count_list(actions);
    let denied = count_outcomes(actions, Outcome::Denied);
    let errors = count_outcomes(actions, Outcome::Error);
    let end = latest_end(actions);
    let st = Stats {
        total_actions: actions.len() as u64,
        by_outcome,
        by_kind,
        denied_count: denied,
        error_count: errors,
        duration_ms: end / 1_000_000,
        avg_action_ms_bits: 0,
        p95_action_ms_bits: 0,
        bytes_in: 0,
        bytes_out: 0,
    };
    st
}

/// Whether every action's end fits in 64 bits.
pub fn durations_fit(actions: &Vec<Action>) -> (b: bool)
    ensures
        b == ends_fit(actions@),
{
    let mut i: usize = 0;
    while i < actions.len()
        invariant
            i <= actions.len(),
            forall|j: int| 0 <= j < i ==> action_end(#[trigger] actions@[j]) <= u64::MAX,
        decreases actions.len() - i,
    {
        let a = &actions[i];
        let fits = match a.duration_ns {
            Some(d) => d <= u64::MAX - a.ts_mono_ns,
            None => true,
        };
        if !fits {
            return false;
        }
        i = i + 1;
    }
    true
}

// ---------------------------------------------------------------------------
// Reading
// ---------------------------------------------------------------------------

/// `m` with another `ended_at`.
pub open spec fn with_ended(m: SessionMeta, ended_at: Option<WallTime>) -> SessionMeta {
    SessionMeta {
        id: m.id,
        started_at: m.started_at,
        ended_at,
        started_mono_ns: m.started_mono_ns,
        app: m.app,
        server: m.server,
        client: m.client,
        sandbox: m.sandbox,
        redactions: m.redactions,
    }
}

/// What a scanned session reads as: complete with the writer's `end`, or
/// truncated, without `ended_at` and with recomputed statistics.
pub open spec fn finished_as(r: ReadOutcome, s: Scanned) -> bool {
    match s.end {
        Some(e) => {
            &&& r matches ReadOutcome::Complete(f)
            &&& f.schema_version == s.schema_version
            &&& f.session == with_ended(s.session, Some(e.0))
            &&& f.actions == s.actions
            &&& f.stats == Some(e.1)
        },
        None => {
            &&& r matches ReadOutcome::Truncated(f)
            &&& f.schema_version == s.schema_version
            &&& f.session == with_ended(s.session, None)
            &&& f.actions == s.actions
            &&& f.stats matches Some(st)
            &&& recomputed(st, s.actions@)
        },
    }
}

/// Settles a scanned session: complete when it has an `end` record,
/// truncated (statistics recomputed) when it does not.
pub fn finish_scan(s: Scanned) -> (r: ReadOutcome)
    requires
        s.end is None ==> ends_fit(s.actions@),
    ensures
        finished_as(r, s),
{
    let Scanned { schema_version, session, actions, end } = s;
    let mut session = session;
    match end {
        Some((ended_at, stats)) => {
            session.ended_at = Some(ended_at);
            ReadOutcome::Complete(SessionFile { schema_version, session, actions, stats: Some(stats) })
        },
        None => {
            session.ended_at = None;
            let stats = recompute_stats(&actions);
            ReadOutcome::Truncated(SessionFile { schema_version, session, actions, stats: Some(stats) })
        },
    }
}

/// What reading `lines` gives once reading stopped with `meta`, `actions`
/// and `end`.
pub open spec fn read_as(
    r: Result<ReadOutcome, AppError>,
    meta: Option<(String, SessionMeta)>,
    actions: Seq<Action>,
    end: Option<(WallTime, Stats)>,
) -> bool {
    match meta {
        None => r matches Err(AppError::Internal(e)) && e@ == "session reader: file has no meta record"@,
        Some(m) => {
            &&& r matches Ok(o)
            &&& match end {
                Some(e) => {
                    &&& o matches ReadOutcome::Complete(f)
                    &&& f.schema_version == m.0
                    &&& f.session == with_ended(m.1, Some(e.0))
                    &&& f.actions@ == sort_by_seq(actions)
                    &&& f.stats == Some(e.1)
                },
                None => {
                    &&& o matches ReadOutcome::Truncated(f)
                    &&& f.schema_version == m.0
                    &&& f.session == with_ended(m.1, None)
                    &&& f.actions@ == sort_by_seq(actions)
                    &&& f.stats matches Some(st)
                    &&& recomputed(st, sort_by_seq(actions))
                },
            }
        },
    }
}

/// The ends of the actions whose statistics would be recomputed fit in 64
/// bits.
pub open spec fn read_fits(lines: Seq<NdjsonLine>) -> bool {
    match scan(lines) {
        Scan::Reading { meta, actions } => ends_fit(sort_by_seq(actions)),
        Scan::Ended { meta, actions, end } => end is None ==> ends_fit(sort_by_seq(actions)),
        Scan::Malformed(_) => true,
    }
}

/// Reads a session file from its lines: see [`scan_ndjson`] for the errors,
/// and [`finish_scan`] for complete and truncated sessions.
pub fn read_ndjson_from(lines: Vec<NdjsonLine>) -> (r: Result<ReadOutcome, AppError>)
    requires
        read_fits(lines@),
    ensures
        match scan(lines@) {
            Scan::Malformed(m) => r matches Err(AppError::Internal(e)) && e@ == m,
            Scan::Reading { meta, actions } => read_as(r, meta, actions, None),
            Scan::Ended { meta, actions, end } => read_as(r, meta, actions, end),
        },
{
    match scan_ndjson(lines) {
        Err(e) => Err(e),
        Ok(s) => Ok(finish_scan(s)),
    }
}

/// A line the writer wrote for `record`: not blank, and decoding to it.
pub open spec fn written_line(line: NdjsonLine, record: NdjsonRecord) -> bool {
    line matches NdjsonLine::Text { text, record: r } && !ignorable(text@) && r == Some(record)
}

proof fn lemma_written_prefix(
    lines: Seq<NdjsonLine>,
    meta: Option<(String, SessionMeta)>,
    actions: Seq<Action>,
    k: int,
)
    requires
        0 <= k <= actions.len(),
        lines.len() == actions.len() + 2,
        meta is Some,
        scan(lines.take(1)) == (Scan::Reading { meta, actions: Seq::empty() }),
        forall|i: int| 0 <= i < actions.len() ==> written_line(#[trigger] lines[i + 1], NdjsonRecord::Action { action: actions[i] }),
    ensures
        scan(lines.take(k + 1)) == (Scan::Reading { meta, actions: actions.take(k) }),
    decreases k,
{
    if k == 0 {
        assert(actions.take(0) == Seq::<Action>::empty());
    } else {
        lemma_written_prefix(lines, meta, actions, k - 1);
        assert(written_line(lines[k], NdjsonRecord::Action { action: actions[k - 1] }));
        assert(lines.take(k + 1).drop_last() == lines.take(k));
        assert(lines.take(k + 1).last() == lines[k]);
        assert(actions.take(k - 1).push(actions[k - 1]) == actions.take(k));
    }
}

/// A file written as `meta` (in a schema version this reader reads), the
/// actions, then `end` reads back whole:
/// the meta record, every action (in `seq` order, which is the order they
/// were written in when that order was already by `seq`), and the `end`.
pub proof fn lemma_written_session_reads_back(
    lines: Seq<NdjsonLine>,
    schema_version: String,
    session: SessionMeta,
    actions: Seq<Action>,
    ended_at: WallTime,
    stats: Stats,
)
    requires
        lines.len() == actions.len() + 2,
        !major_above_zero(schema_version@),
        written_line(lines[0], NdjsonRecord::Meta { schema_version, session }),
        forall|i: int| 0 <= i < actions.len() ==> written_line(#[trigger] lines[i + 1], NdjsonRecord::Action { action: actions[i] }),
        written_line(lines.last(), NdjsonRecord::End { ended_at, stats }),
    ensures
        scan(lines) == (Scan::Ended {
            meta: Some((schema_version, session)),
            actions,
            end: Some((ended_at, stats)),
        }),
        sorted_by_seq(actions) ==> sort_by_seq(actions) == actions,
{
    let meta = Some((schema_version, session));
    assert(lines.take(1).drop_last() == lines.take(0));
    assert(lines.take(0).len() == 0);
    assert(lines.take(1).last() == lines[0]);
    assert(scan(lines.take(0)) == (Scan::Reading { meta: None, actions: Seq::empty() }));
    assert(scan(lines.take(1)) == (Scan::Reading { meta, actions: Seq::empty() }));
    lemma_written_prefix(lines, meta, actions, actions.len() as int);
    assert(actions.take(actions.len() as int) == actions);
    assert(lines.take(lines.len() as int) == lines);
    assert(lines.drop_last() == lines.take(actions.len() + 1int));
    if sorted_by_seq(actions) {
        lemma_sort_by_seq_sorted_input(actions);
    }
}

} // verus!
