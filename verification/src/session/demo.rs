//! A small demo trace for seeding the Timeline: a session start, an allowed
//! read inside the project, and a denied write to `~/.ssh/config`, with
//! fresh ids and times so that two seeds never collide.

use vstd::prelude::*;

use crate::ids::{new_trace_id, now_wall};
use crate::json::{Json, JsonMember, JsonValue};
use crate::text::owned;

use super::hash::{payload_hash, payload_hash_spec};
use super::partial::{capped, over_cap, payload_size_spec, PartialAction};
use super::reader::{count_outcomes, count_views, kind_count_list, kind_counts, outcome_count_list, outcome_counts};
use super::types::{
    Action, ActionError, Actor, AppInfo, ClientInfo, Kind, Outcome, SandboxConfig, SandboxDecision,
    ServerInfo, SessionFile, SessionMeta, Stats, TraceId, WallTime, SCHEMA_VERSION,
};

verus! {

/// `t` plus `ms` milliseconds.
pub open spec fn add_ms(t: WallTime, ms: int) -> WallTime {
    let total = t.nanos + ms * 1_000_000;
    WallTime { secs: (t.secs + total / 1_000_000_000) as i64, nanos: (total % 1_000_000_000) as u32 }
}

fn add_millis(t: WallTime, ms: u32) -> (r: WallTime)
    requires
        ms <= 10_000,
        -10_000_000_000_000 <= t.secs <= 10_000_000_000_000,
        t.nanos < 2_000_000_000,
    ensures
        r == add_ms(t, ms as int),
{
    let total: u64 = t.nanos as u64 + (ms as u64) * 1_000_000;
    let carry: i64 = (total / 1_000_000_000) as i64;
    WallTime { secs: t.secs + carry, nanos: (total % 1_000_000_000) as u32 }
}

fn str_value(s: &str) -> (v: JsonValue)
    ensures
        v@ == Json::Str(s@),
{
    JsonValue::Str(owned(s))
}

fn object2(k1: &str, v1: JsonValue, k2: &str, v2: JsonValue) -> (v: JsonValue)
    ensures
        v@ == Json::Object(seq![(k1@, v1@), (k2@, v2@)]),
{
    let mut ms: Vec<JsonMember> = Vec::new();
    ms.push(JsonMember { key: owned(k1), value: v1 });
    ms.push(JsonMember { key: owned(k2), value: v2 });
    proof {
        crate::json::lemma_members_of(ms@);
        assert(crate::json::members_of(ms@) =~= seq![(k1@, v1@), (k2@, v2@)]);
    }
    JsonValue::Object(ms)
}

fn object1(k1: &str, v1: JsonValue) -> (v: JsonValue)
    ensures
        v@ == Json::Object(seq![(k1@, v1@)]),
{
    let mut ms: Vec<JsonMember> = Vec::new();
    ms.push(JsonMember { key: owned(k1), value: v1 });
    proof {
        crate::json::lemma_members_of(ms@);
        assert(crate::json::members_of(ms@) =~= seq![(k1@, v1@)]);
    }
    JsonValue::Object(ms)
}

/// The arguments of the demo's allowed read.
pub open spec fn read_args() -> Json {
    Json::Object(seq![("path"@, Json::Str("/Users/demo/Projects/site/package.json"@))])
}

/// The result of the demo's allowed read.
pub open spec fn read_result() -> Json {
    Json::Object(
        seq![
            ("content"@, Json::Str("{\"name\":\"site\",\"version\":\"0.1.0\"}"@)),
            ("mime"@, Json::Str("application/json"@)),
        ],
    )
}

/// The arguments of the demo's denied write.
pub open spec fn write_args() -> Json {
    Json::Object(
        seq![("content"@, Json::Str("Host evil\n  HostName 10.0.0.1"@)), ("path"@, Json::Str("/Users/demo/.ssh/config"@))],
    )
}

pub open spec fn tag_views(tags: Seq<String>) -> Seq<Seq<char>> {
    tags.map_values(|t: String| t@)
}

/// The allowed read: a successful `read_file` inside the project, allowed
/// by the `fs.allow.projects` rule without a prompt.
pub open spec fn is_demo_read(a: Action, seq: u64, anchor: WallTime, cause: TraceId) -> bool {
    &&& a.seq == seq
    &&& a.parent_id is None
    &&& a.cause_id == Some(cause)
    &&& a.ts_wall == add_ms(anchor, 2275)
    &&& a.ts_mono_ns == 2_275_000_000
    &&& a.duration_ns == Some(18_324_000u64)
    &&& a.kind == Kind::ToolCall
    &&& a.actor == Actor::Agent
    &&& a.tool matches Some(t) && t@ == "read_file"@
    &&& crate::json::opt_json(a.args) == Some(read_args())
    &&& crate::json::opt_json(a.result) == Some(read_result())
    &&& a.outcome == Outcome::Success
    &&& a.error is None
    &&& a.decision matches Some(d) && d.verdict@ == "allow"@ && d.rule_id@ == "fs.allow.projects"@
        && d.reason@ == "Path inside fs_allow"@ && d.mode@ == "enforce"@ && !d.prompted && d.prompt_resolution is None
    &&& a.payload_hash@ == payload_hash_spec(Some(read_args()), Some(read_result()))
    &&& !a.payload_truncated
    &&& a.payload_size_bytes == 2_148
    &&& tag_views(a.tags@) == seq!["fs"@, "read"@]
}

/// The denied write: a `write_file` to `~/.ssh/config` that the user
/// denied at the prompt.
pub open spec fn is_demo_write(a: Action, seq: u64, anchor: WallTime, cause: TraceId) -> bool {
    &&& a.seq == seq
    &&& a.parent_id is None
    &&& a.cause_id == Some(cause)
    &&& a.ts_wall == add_ms(anchor, 2971)
    &&& a.ts_mono_ns == 2_971_000_000
    &&& a.duration_ns == Some(4_102_000u64)
    &&& a.kind == Kind::ToolCall
    &&& a.actor == Actor::Agent
    &&& a.tool matches Some(t) && t@ == "write_file"@
    &&& crate::json::opt_json(a.args) == Some(write_args())
    &&& a.result is None
    &&& a.outcome == Outcome::Denied
    &&& a.error matches Some(e) && e.code@ == "SANDBOX_DENY"@ && e.message@
        == "Write to ~/.ssh/config blocked by policy"@ && e.source@ == "sandbox"@ && e.data is None
    &&& a.decision matches Some(d)
    &&& d.verdict@ == "deny"@
    &&& d.rule_id@ == "fs.write"@
    &&& d.reason@ == "User reviewed approval prompt and chose Deny"@
    &&& d.mode@ == "enforce"@
    &&& d.prompted
    &&& d.prompt_resolution matches Some(r)
    &&& r@ == "deny"@
    &&& a.payload_hash@ == payload_hash_spec(Some(write_args()), None)
    &&& !a.payload_truncated
    &&& a.payload_size_bytes == 78
    &&& tag_views(a.tags@) == seq!["fs"@, "write"@, "denied"@, "prompted"@]
}

/// The arguments of the demo's `start` record.
pub open spec fn start_args() -> Json {
    Json::Object(seq![("event"@, Json::Str("start"@))])
}

/// The `start` record that opens the demo session at `anchor`.
pub open spec fn is_demo_start(a: Action, anchor: WallTime) -> bool {
    &&& a.seq == 0
    &&& a.parent_id is None
    &&& a.cause_id is None
    &&& a.ts_wall == anchor
    &&& a.ts_mono_ns == 0
    &&& a.duration_ns == Some(0u64)
    &&& a.kind == Kind::SessionEvent
    &&& a.actor == Actor::System
    &&& a.tool is None
    &&& crate::json::opt_json(a.args) == capped(Some(start_args()))
    &&& a.result is None
    &&& a.outcome == Outcome::Success
    &&& a.error is None
    &&& a.decision is None
    &&& a.payload_hash@ == payload_hash_spec(Some(start_args()), None)
    &&& a.payload_truncated == over_cap(Some(start_args()))
    &&& a.payload_size_bytes as int == payload_size_spec(Some(start_args()), None)
    &&& tag_views(a.tags@) == seq!["lifecycle"@]
}

/// The demo session's metadata apart from its id and times: reported by
/// `app`, the demo filesystem server over stdio, the Cursor client, and an
/// enforcing sandbox that allows the project and denies `~/.ssh` and
/// `~/.aws`, with no network allowed.
pub open spec fn is_demo_setup(m: SessionMeta, app: AppInfo) -> bool {
    &&& m.started_mono_ns == 0
    &&& m.app == app
    &&& m.server.id@ == "demo.filesystem"@
    &&& m.server.name@ == "Filesystem (demo)"@
    &&& m.server.version@ == "0.6.2"@
    &&& m.server.transport@ == "stdio"@
    &&& tag_views(m.server.command@) == seq!["npx"@, "@modelcontextprotocol/server-filesystem"@, "/Users/demo/Projects"@]
    &&& tag_views(m.server.capabilities@) == seq!["tools"@, "resources"@]
    &&& m.client.name@ == "cursor"@
    &&& m.client.version@ == "0.9.4"@
    &&& m.sandbox.mode@ == "enforce"@
    &&& tag_views(m.sandbox.fs_allow@) == seq!["/Users/demo/Projects"@]
    &&& tag_views(m.sandbox.fs_deny@) == seq!["~/.ssh"@, "~/.aws"@]
    &&& m.sandbox.net_allow@.len() == 0
    &&& m.sandbox.net_default@ == "deny"@
    &&& m.redactions is None
}

fn strings4(a: &str, b: &str, c: &str, d: &str) -> (v: Vec<String>)
    ensures
        tag_views(v@) == seq![a@, b@, c@, d@],
{
    let mut v: Vec<String> = Vec::new();
    v.push(owned(a));
    v.push(owned(b));
    v.push(owned(c));
    v.push(owned(d));
    assert(tag_views(v@) =~= seq![a@, b@, c@, d@]);
    v
}

fn strings2(a: &str, b: &str) -> (v: Vec<String>)
    ensures
        tag_views(v@) == seq![a@, b@],
{
    let mut v: Vec<String> = Vec::new();
    v.push(owned(a));
    v.push(owned(b));
    assert(tag_views(v@) =~= seq![a@, b@]);
    v
}

fn build_allowed_read(seq: u64, anchor: WallTime, cause: TraceId) -> (a: Action)
    requires
        -10_000_000_000_000 <= anchor.secs <= 10_000_000_000_000,
        anchor.nanos < 2_000_000_000,
    ensures
        is_demo_read(a, seq, anchor, cause),
{
    let args = object1("path", str_value("/Users/demo/Projects/site/package.json"));
    let result = object2(
        "content",
        str_value("{\"name\":\"site\",\"version\":\"0.1.0\"}"),
        "mime",
        str_value("application/json"),
    );
    let hash = payload_hash(Some(&args), Some(&result));
    Action {
        id: new_trace_id(),
        seq,
        parent_id: None,
        cause_id: Some(cause),
        ts_wall: add_millis(anchor, 2_275),
        ts_mono_ns: 2_275_000_000,
        duration_ns: Some(18_324_000),
        kind: Kind::ToolCall,
        actor: Actor::Agent,
        tool: Some(owned("read_file")),
        args: Some(args),
        result: Some(result),
        outcome: Outcome::Success,
        error: None,
        decision: Some(SandboxDecision {
            verdict: owned("allow"),
            rule_id: owned("fs.allow.projects"),
            reason: owned("Path inside fs_allow"),
            mode: owned("enforce"),
            prompted: false,
            prompt_resolution: None,
        }),
        payload_hash: hash,
        payload_truncated: false,
        payload_size_bytes: 2_148,
        tags: strings2("fs", "read"),
    }
}

fn build_denied_write(seq: u64, anchor: WallTime, cause: TraceId) -> (a: Action)
    requires
        -10_000_000_000_000 <= anchor.secs <= 10_000_000_000_000,
        anchor.nanos < 2_000_000_000,
    ensures
        is_demo_write(a, seq, anchor, cause),
{
    let args = object2(
        "content",
        str_value("Host evil\n  HostName 10.0.0.1"),
        "path",
        str_value("/Users/demo/.ssh/config"),
    );
    let hash = payload_hash(Some(&args), None);
    Action {
        id: new_trace_id(),
        seq,
        parent_id: None,
        cause_id: Some(cause),
        ts_wall: add_millis(anchor, 2_971),
        ts_mono_ns: 2_971_000_000,
        duration_ns: Some(4_102_000),
        kind: Kind::ToolCall,
        actor: Actor::Agent,
        tool: Some(owned("write_file")),
        args: Some(args),
        result: None,
        outcome: Outcome::Denied,
        error: Some(ActionError {
            code: owned("SANDBOX_DENY"),
            message: owned("Write to ~/.ssh/config blocked by policy"),
            source: owned("sandbox"),
            data: None,
        }),
        decision: Some(SandboxDecision {
            verdict: owned("deny"),
            rule_id: owned("fs.write"),
            reason: owned("User reviewed approval prompt and chose Deny"),
            mode: owned("enforce"),
            prompted: true,
            prompt_resolution: Some(owned("deny")),
        }),
        payload_hash: hash,
        payload_truncated: false,
        payload_size_bytes: 78,
        tags: strings4("fs", "write", "denied", "prompted"),
    }
}

/// The IEEE-754 bits of 7.5, the demo's average action time in ms.
pub const DEMO_AVG_MS_BITS: u64 = 4620130267728707584;

/// The IEEE-754 bits of 18.3, the demo's p95 action time in ms.
pub const DEMO_P95_MS_BITS: u64 = 4625844209755933901;

/// The demo's statistics: counts by outcome and kind taken from the
/// actions, the denied count, and fixed times (3.9 s, 7.5 ms average,
/// 18.3 ms p95).
pub open spec fn is_demo_stats(st: Stats, actions: Seq<Action>) -> bool {
    &&& st.total_actions == actions.len()
    &&& count_views(st.by_outcome@) == outcome_counts(actions)
    &&& count_views(st.by_kind@) == kind_counts(actions)
    &&& st.denied_count == super::reader::count_outcome(actions, Outcome::Denied)
    &&& st.error_count == 0
    &&& st.duration_ms == 3_900
    &&& st.avg_action_ms_bits == DEMO_AVG_MS_BITS
    &&& st.p95_action_ms_bits == DEMO_P95_MS_BITS
    &&& st.bytes_in == 0
    &&& st.bytes_out == 0
}

fn compute_demo_stats(actions: &Vec<Action>) -> (st: Stats)
    ensures
        is_demo_stats(st, actions@),
{
    Stats {
        total_actions: actions.len() as u64,
        by_outcome: outcome_count_list(actions),
        by_kind: kind_count_list(actions),
        denied_count: count_outcomes(actions, Outcome::Denied),
        error_count: 0,
        duration_ms: 3_900,
        avg_action_ms_bits: DEMO_AVG_MS_BITS,
        p95_action_ms_bits: DEMO_P95_MS_BITS,
        bytes_in: 0,
        bytes_out: 0,
    }
}

/// A fresh demo session, reported by the hub `app`: it starts now and ends
/// 3.9 s later; its actions are the `start` record, the allowed read and
/// the denied write (sequence numbers 0, 1, 2, the last two sharing a fresh
/// cause id); the server is the demo filesystem server.
pub fn make_demo_session(app: AppInfo) -> (f: SessionFile)
    ensures
        f.schema_version@ == SCHEMA_VERSION@,
        f.session.ended_at == Some(add_ms(f.session.started_at, 3900)),
        is_demo_setup(f.session, app),
        f.actions@.len() == 3,
        is_demo_start(f.actions@[0], f.session.started_at),
        f.actions@[1].cause_id is Some,
        is_demo_read(f.actions@[1], 1, f.session.started_at, f.actions@[1].cause_id->0),
        is_demo_write(f.actions@[2], 2, f.session.started_at, f.actions@[1].cause_id->0),
        f.stats matches Some(st) && is_demo_stats(st, f.actions@),
{
    let session_id = new_trace_id();
    let started_at = now_wall();
    let ended_at = add_millis(started_at, 3_900);
    let cause = new_trace_id();
    let action0 = PartialAction::lifecycle(0, "start", started_at, 0).complete(None, 0, None);
    proof {
        reveal_strlit("event");
        reveal_strlit("lifecycle");
        assert("event"@ == seq!['e', 'v', 'e', 'n', 't']);
        assert("lifecycle"@ == seq!['l', 'i', 'f', 'e', 'c', 'y', 'c', 'l', 'e']);
        assert(tag_views(action0.tags@) =~= seq!["lifecycle"@]);
    }
    let action1 = build_allowed_read(1, started_at, cause);
    let action2 = build_denied_write(2, started_at, cause);
    let mut actions: Vec<Action> = Vec::new();
    actions.push(action0);
    actions.push(action1);
    actions.push(action2);
    let stats = compute_demo_stats(&actions);
    let mut command: Vec<String> = Vec::new();
    command.push(owned("npx"));
    command.push(owned("@modelcontextprotocol/server-filesystem"));
    command.push(owned("/Users/demo/Projects"));
    assert(tag_views(command@) =~= seq!["npx"@, "@modelcontextprotocol/server-filesystem"@, "/Users/demo/Projects"@]);
    let mut fs_allow: Vec<String> = Vec::new();
    fs_allow.push(owned("/Users/demo/Projects"));
    assert(tag_views(fs_allow@) =~= seq!["/Users/demo/Projects"@]);
    SessionFile {
        schema_version: owned(SCHEMA_VERSION),
        session: SessionMeta {
            id: session_id,
            started_at,
            ended_at: Some(ended_at),
            started_mono_ns: 0,
            app,
            server: ServerInfo {
                id: owned("demo.filesystem"),
                name: owned("Filesystem (demo)"),
                version: owned("0.6.2"),
                transport: owned("stdio"),
                command,
                capabilities: strings2("tools", "resources"),
            },
            client: ClientInfo { name: owned("cursor"), version: owned("0.9.4") },
            sandbox: SandboxConfig {
                mode: owned("enforce"),
                fs_allow,
                fs_deny: strings2("~/.ssh", "~/.aws"),
                net_allow: Vec::new(),
                net_default: owned("deny"),
            },
            redactions: None,
        },
        actions,
        stats: Some(stats),
    }
}

} // verus!
