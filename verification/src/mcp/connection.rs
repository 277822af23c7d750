//! One proxied connection as a state machine.
//!
//! The caller owns the sockets, the server's stdio, the approval prompt and
//! the trace file. It hands each line it reads (and the JSON it decodes to)
//! to a [`ProxySession`], and performs what comes back: forward bytes to
//! the server or the client, publish a live action, append a trace record,
//! or ask the user and report the answer with [`ProxySession::on_approval`].

use vstd::prelude::*;

use crate::db::permissions::{PersistedPermission, RequestedPermission};
use crate::json::{json_as_str, json_get, opt_json, Json, JsonMember, JsonValue};
use crate::mcp::agent::{
    classify_jsonrpc, jsonrpc_fields, opt_str, ActionKind, ActionStatus, AgentAction, AgentActionView,
};
use crate::mcp::proxy::{
    action_kind_tag, ask_scope_spec, enforce_permission, kind_tag_spec, number_as_i64,
    number_as_i64_spec, prompted_allow, recorded, resolve_decision, rpc_id_key, rpc_key_spec, CountersView, Decision,
    DenyResult, Resolution, SessionCounters,
};
use crate::json_decode::{decode_chars, decoded_line};
use crate::mcp::strmap::StrMap;
use crate::security::approvals::ApprovalDecision;
use crate::session::hash::{canonical, canonical_json, payload_hash_spec};
use crate::session::partial::{capped, over_cap, payload_size_spec, PartialAction};
use crate::session::types::{
    Action, ActionError, Actor, Kind, Outcome, SandboxDecision, TraceId, WallTime,
};
use crate::text::{
    chars_of, chars_starts_with, owned, push_all, signed_decimal, starts_with, trim_start,
    trim_start_chars, i64_to_decimal,
};

verus! {

// ---------------------------------------------------------------------------
// Small pieces
// ---------------------------------------------------------------------------

/// `line` followed by a newline, as it goes on the wire.
pub fn framed(line: &str) -> (r: String)
    ensures
        r@ == line@ + "\n"@,
{
    let mut r = owned(line);
    push_all(&mut r, "\n");
    r
}

/// Nanoseconds between two readings of the monotonic clock (0 if `now` is
/// the earlier one).
pub open spec fn elapsed_spec(started_ns: u64, now_ns: u64) -> u64 {
    if now_ns >= started_ns {
        (now_ns - started_ns) as u64
    } else {
        0
    }
}

/// Nanoseconds elapsed since `started_ns`, both readings of the monotonic
/// clock.
pub fn elapsed_ns(started_ns: u64, now_ns: u64) -> (r: u64)
    ensures
        r == elapsed_spec(started_ns, now_ns),
{
    if now_ns >= started_ns {
        now_ns - started_ns
    } else {
        0
    }
}

/// `a` with another status.
pub open spec fn with_status(a: AgentActionView, status: ActionStatus) -> AgentActionView {
    AgentActionView {
        id: a.id,
        server_id: a.server_id,
        kind: a.kind,
        tool_name: a.tool_name,
        target: a.target,
        params: a.params,
        request_id: a.request_id,
        status,
        denied_reason: a.denied_reason,
        error: a.error,
        latency_ms: a.latency_ms,
        timestamp: a.timestamp,
    }
}

/// `a` marked denied, with the reason shown to the user.
pub open spec fn with_denial(a: AgentActionView, reason: Seq<char>) -> AgentActionView {
    AgentActionView {
        id: a.id,
        server_id: a.server_id,
        kind: a.kind,
        tool_name: a.tool_name,
        target: a.target,
        params: a.params,
        request_id: a.request_id,
        status: ActionStatus::Denied,
        denied_reason: Some(reason),
        error: a.error,
        latency_ms: a.latency_ms,
        timestamp: a.timestamp,
    }
}

/// The reason shown on a denied action: `<reason> (required scope: <scope>)`.
pub open spec fn denied_reason_spec(reason: Seq<char>, scope: Seq<char>) -> Seq<char> {
    reason + " (required scope: "@ + scope + ")"@
}

/// The JSON-RPC error that answers a denied request.
pub open spec fn denial_json(id: Json, scope: Seq<char>, reason: Seq<char>) -> Json {
    Json::Object(
        seq![
            ("jsonrpc"@, Json::Str("2.0"@)),
            ("id"@, id),
            (
                "error"@,
                Json::Object(
                    seq![
                        ("code"@, Json::Number("-32603"@)),
                        ("message"@, Json::Str("Permission denied by MCP Hub"@)),
                        ("data"@, Json::Object(seq![("scope"@, Json::Str(scope)), ("reason"@, Json::Str(reason))])),
                    ],
                ),
            ),
        ],
    )
}

fn member(key: &str, value: JsonValue) -> (m: JsonMember)
    ensures
        m.key@ == key@,
        m.value@ == value@,
{
    JsonMember { key: owned(key), value }
}

/// The compact JSON text of the error that answers a denied request whose
/// id is `id`: code -32603, message `Permission denied by MCP Hub`, and the
/// scope and reason as data. Keys come out in order, as serde_json writes
/// its maps.
pub fn denial_response(id: &JsonValue, scope: &str, reason: &str) -> (r: String)
    ensures
        r@ == canonical(denial_json(id@, scope@, reason@)) + "\n"@,
{
    let mut data: Vec<JsonMember> = Vec::new();
    data.push(member("scope", JsonValue::Str(owned(scope))));
    data.push(member("reason", JsonValue::Str(owned(reason))));
    let mut err: Vec<JsonMember> = Vec::new();
    err.push(member("code", JsonValue::Number(owned("-32603"))));
    err.push(member("message", JsonValue::Str(owned("Permission denied by MCP Hub"))));
    err.push(member("data", JsonValue::Object(data)));
    let mut top: Vec<JsonMember> = Vec::new();
    top.push(member("jsonrpc", JsonValue::Str(owned("2.0"))));
    top.push(member("id", id.clone()));
    top.push(member("error", JsonValue::Object(err)));
    let v = JsonValue::Object(top);
    proof {
        crate::json::lemma_members_of(data@);
        crate::json::lemma_members_of(err@);
        crate::json::lemma_members_of(top@);
        assert(crate::json::members_of(data@) =~= seq![("scope"@, Json::Str(scope@)), ("reason"@, Json::Str(reason@))]);
        assert(crate::json::members_of(err@) =~= seq![
            ("code"@, Json::Number("-32603"@)),
            ("message"@, Json::Str("Permission denied by MCP Hub"@)),
            ("data"@, Json::Object(seq![("scope"@, Json::Str(scope@)), ("reason"@, Json::Str(reason@))])),
        ]);
        assert(crate::json::members_of(top@) =~= seq![
            ("jsonrpc"@, Json::Str("2.0"@)),
            ("id"@, id@),
            ("error"@, Json::Object(crate::json::members_of(err@))),
        ]);
        assert(v@ == denial_json(id@, scope@, reason@));
    }
    let text = canonical_json(&v);
    framed(text.as_str())
}


// ---------------------------------------------------------------------------
// Responses
// ---------------------------------------------------------------------------

/// A request forwarded to the server and awaiting its response: its live
/// action, its trace partial, when it arrived (monotonic nanoseconds), and
/// the verdict the user gave at the prompt, if it was asked.
pub struct InFlight {
    pub action: AgentAction,
    pub partial: PartialAction,
    pub started_ns: u64,
    pub decision: Option<SandboxDecision>,
}

/// The model of an optional decoded line.
pub open spec fn parsed_model(parsed: Option<&JsonValue>) -> Option<Json> {
    match parsed {
        Some(v) => Some(v@),
        None => None,
    }
}

/// The key of the request a server line answers: the line must be a JSON
/// object (after leading whitespace) with an `id` and without a `method`.
/// `parsed` is what the line decodes to (`None` when it does not).
pub open spec fn response_key(line: Seq<char>, parsed: Option<Json>) -> Option<Seq<char>> {
    if !starts_with(trim_start(line), "{"@) {
        None
    } else {
        match parsed {
            None => None,
            Some(v) => if json_get(v, "method"@) is Some {
                None
            } else {
                match json_get(v, "id"@) {
                    Some(id) => Some(rpc_key_spec(id)),
                    None => None,
                }
            },
        }
    }
}

/// The message of a JSON-RPC error: its string `message`, else
/// `server error`.
pub open spec fn error_message_spec(err: Json) -> Seq<char> {
    match json_as_str(json_get(err, "message"@)) {
        Some(m) => m,
        None => "server error"@,
    }
}

/// The code of a JSON-RPC error as text: its `code` in decimal when it is
/// an integer that fits in `i64`, else `MCP_ERROR`.
pub open spec fn error_code_spec(err: Json) -> Seq<char> {
    match json_get(err, "code"@) {
        Some(Json::Number(t)) => match number_as_i64_spec(t) {
            Some(n) => signed_decimal(n),
            None => "MCP_ERROR"@,
        },
        _ => "MCP_ERROR"@,
    }
}

/// The live action once the response `resp` came in after `dur`
/// nanoseconds: latency in whole milliseconds, the time of the response,
/// and `Failed` with the error message or `Success`.
pub open spec fn answered(a: AgentActionView, resp: Json, dur: u64, wall: WallTime) -> AgentActionView {
    let failed = json_get(resp, "error"@) is Some;
    AgentActionView {
        id: a.id,
        server_id: a.server_id,
        kind: a.kind,
        tool_name: a.tool_name,
        target: a.target,
        params: a.params,
        request_id: a.request_id,
        status: if failed { ActionStatus::Failed } else { ActionStatus::Success },
        denied_reason: a.denied_reason,
        error: if failed { Some(error_message_spec(json_get(resp, "error"@)->0)) } else { a.error },
        latency_ms: Some((dur / 1_000_000) as u64),
        timestamp: wall,
    }
}

/// `t` carries the identity, times, kind, actor, tool and arguments of `p`
/// (the arguments as a record keeps them: cut to a marker over the cap).
pub open spec fn folds(t: Action, p: PartialAction) -> bool {
    &&& t.id == p.id
    &&& t.seq == p.seq
    &&& t.parent_id == p.parent_id
    &&& t.cause_id == p.cause_id
    &&& t.ts_wall == p.ts_wall
    &&& t.ts_mono_ns == p.ts_mono_ns
    &&& t.kind == p.kind
    &&& t.actor == p.actor
    &&& t.tool == p.tool
    &&& opt_json(t.args) == capped(opt_json(p.args))
}

/// `t` completes `p` successfully with `result` after `dur` nanoseconds,
/// recording `decision`.
pub open spec fn completed_ok(t: Action, p: PartialAction, result: Option<Json>, dur: u64, decision: Option<SandboxDecision>) -> bool {
    &&& folds(t, p)
    &&& t.tags == p.tags
    &&& t.duration_ns == Some(dur)
    &&& opt_json(t.result) == capped(result)
    &&& t.outcome == Outcome::Success
    &&& t.error is None
    &&& t.decision == decision
    &&& t.payload_hash@ == payload_hash_spec(opt_json(p.args), result)
    &&& t.payload_truncated == (over_cap(opt_json(p.args)) || over_cap(result))
    &&& t.payload_size_bytes as int == payload_size_spec(opt_json(p.args), result)
}

/// `t` completes `p` with the server's error `err` after `dur` nanoseconds,
/// recording `decision`.
pub open spec fn completed_error(t: Action, p: PartialAction, err: Json, dur: u64, decision: Option<SandboxDecision>) -> bool {
    &&& folds(t, p)
    &&& t.tags == p.tags
    &&& t.duration_ns == Some(dur)
    &&& t.result is None
    &&& t.outcome == Outcome::Error
    &&& t.decision == decision
    &&& t.error matches Some(e)
    &&& e.code@ == error_code_spec(err)
    &&& e.message@ == error_message_spec(err)
    &&& e.source@ == "tool"@
    &&& opt_json(e.data) == json_get(err, "data"@)
    &&& t.payload_hash@ == payload_hash_spec(opt_json(p.args), None)
    &&& t.payload_truncated == over_cap(opt_json(p.args))
    &&& t.payload_size_bytes as int == payload_size_spec(opt_json(p.args), None)
}

/// `t` completes `p` by the response `resp`: an `error` member makes it an
/// error, anything else a success carrying the `result` member; either way
/// the verdict `decision` given before forwarding is recorded.
pub open spec fn completed_by_response(t: Action, p: PartialAction, resp: Json, dur: u64, decision: Option<SandboxDecision>) -> bool {
    match json_get(resp, "error"@) {
        Some(e) => completed_error(t, p, e, dur, decision),
        None => completed_ok(t, p, json_get(resp, "result"@), dur, decision),
    }
}

/// A response paired with its request: the updated live action and the
/// completed trace record.
pub struct ResponseMatch {
    pub action: AgentAction,
    pub trace: Action,
}

fn error_message(error: &JsonValue) -> (m: String)
    ensures
        m@ == error_message_spec(error@),
{
    match error.get("message") {
        Some(v) => match v.as_str() {
            Some(s) => owned(s),
            None => owned("server error"),
        },
        None => owned("server error"),
    }
}

fn error_code(error: &JsonValue) -> (c: String)
    ensures
        c@ == error_code_spec(error@),
{
    match error.get("code") {
        Some(JsonValue::Number(t)) => match number_as_i64(t.as_str()) {
            Some(n) => i64_to_decimal(n),
            None => owned("MCP_ERROR"),
        },
        _ => owned("MCP_ERROR"),
    }
}

fn clone_ref(v: Option<&JsonValue>) -> (r: Option<JsonValue>)
    ensures
        opt_json(r) == parsed_model(v),
{
    match v {
        Some(x) => Some(x.clone()),
        None => None,
    }
}

/// Pairs a server line (decoded as JSON once its leading whitespace is
/// removed) with the pending request it answers and removes that
/// request. Lines that are not responses, and responses to no pending
/// request, leave `pending` as it was and yield `None`.
#[verifier::rlimit(40)]
pub fn match_response(
    line: &str,
    pending: &mut StrMap<InFlight>,
    wall: WallTime,
    now_ns: u64,
) -> (r: Option<ResponseMatch>)
    requires
        old(pending).wf(),
    ensures
        final(pending).wf(),
        ({
            let key = response_key(line@, decoded_line(line@));
            if key is Some && old(pending).map().contains_key(key->0) {
                let inf = old(pending).map()[key->0];
                let dur = elapsed_spec(inf.started_ns, now_ns);
                &&& final(pending).map() == old(pending).map().remove(key->0)
                &&& r matches Some(m)
                &&& m.action@ == answered(inf.action@, decoded_line(line@)->0, dur, wall)
                &&& completed_by_response(m.trace, inf.partial, decoded_line(line@)->0, dur, inf.decision)
            } else {
                &&& final(pending).map() == old(pending).map()
                &&& r is None
            }
        }),
{
    let lc = chars_of(line);
    let trimmed = trim_start_chars(&lc);
    let brace = chars_of("{");
    if !chars_starts_with(&trimmed, &brace) {
        return None;
    }
    let parsed = decode_chars(&trimmed);
    let value = match &parsed {
        Some(v) => v,
        None => return None,
    };
    if value.get("method").is_some() {
        return None;
    }
    let id_val = match value.get("id") {
        Some(i) => i,
        None => return None,
    };
    let key = rpc_id_key(id_val);
    let in_flight = match pending.remove(key.as_str()) {
        Some(f) => f,
        None => return None,
    };
    let duration_ns = elapsed_ns(in_flight.started_ns, now_ns);
    let latency_ms = duration_ns / 1_000_000;
    let mut action = in_flight.action;
    action.latency_ms = Some(latency_ms);
    action.timestamp = wall;
    let decision = in_flight.decision;
    let trace = match value.get("error") {
        Some(error) => {
            action.status = ActionStatus::Failed;
            let message = error_message(error);
            action.error = Some(message.clone());
            let code = error_code(error);
            let data = clone_ref(error.get("data"));
            let mut t = in_flight.partial.complete_error(ActionError { code, message, source: owned("tool"), data }, duration_ns);
            t.decision = decision;
            t
        },
        None => {
            action.status = ActionStatus::Success;
            let result = clone_ref(value.get("result"));
            in_flight.partial.complete(result, duration_ns, decision)
        },
    };
    Some(ResponseMatch { action, trace })
}


// ---------------------------------------------------------------------------
// The connection
// ---------------------------------------------------------------------------

/// The fields the classifier reads from a request: kind, tool name,
/// target, arguments and request id.
pub open spec fn request_action(
    a: AgentActionView,
    f: (ActionKind, Seq<char>, Option<Seq<char>>, Option<Json>, Option<Json>),
    server_id: Seq<char>,
) -> bool {
    &&& a.kind == f.0
    &&& a.tool_name == f.1
    &&& a.target == f.2
    &&& a.params == f.3
    &&& a.request_id == f.4
    &&& a.server_id == server_id
    &&& a.denied_reason is None
    &&& a.error is None
    &&& a.latency_ms is None
}

/// The trace partial captured when a classified request arrives.
pub open spec fn request_partial(
    p: PartialAction,
    f: (ActionKind, Seq<char>, Option<Seq<char>>, Option<Json>, Option<Json>),
    seq: u64,
    cause: Option<TraceId>,
    wall: WallTime,
    mono_ns: u64,
) -> bool {
    &&& p.seq == seq
    &&& p.parent_id is None
    &&& p.cause_id == cause
    &&& p.ts_wall == wall
    &&& p.ts_mono_ns == mono_ns
    &&& p.kind == Kind::ToolCall
    &&& p.actor == Actor::Agent
    &&& opt_str(p.tool) == Some(f.1)
    &&& opt_json(p.args) == f.3
    &&& p.tags@.len() == 1
    &&& p.tags@[0]@ == kind_tag_spec(f.0)
}

/// `t` records the denial of `p`: outcome `denied`, the tag `denied` added,
/// a `deny` decision under the rule `scope` with `reason` (prompted, and
/// resolved `deny`), and a `SANDBOX_DENY` error.
pub open spec fn denied_trace(t: Action, p: PartialAction, scope: Seq<char>, reason: Seq<char>, dur: u64) -> bool {
    &&& folds(t, p)
    &&& t.tags@.len() == p.tags@.len() + 1
    &&& t.tags@.take(p.tags@.len() as int) == p.tags@
    &&& t.tags@.last()@ == "denied"@
    &&& t.duration_ns == Some(dur)
    &&& t.result is None
    &&& t.outcome == Outcome::Denied
    &&& t.payload_hash@ == payload_hash_spec(opt_json(p.args), None)
    &&& t.payload_truncated == over_cap(opt_json(p.args))
    &&& t.payload_size_bytes as int == payload_size_spec(opt_json(p.args), None)
    &&& t.decision matches Some(d)
    &&& d.verdict@ == "deny"@
    &&& d.rule_id@ == scope
    &&& d.reason@ == reason
    &&& d.mode@ == "enforce"@
    &&& d.prompted
    &&& d.prompt_resolution matches Some(pr)
    &&& pr@ == "deny"@
    &&& t.error matches Some(e)
    &&& e.code@ == "SANDBOX_DENY"@
    &&& e.message@ == reason
    &&& e.source@ == "sandbox"@
    &&& e.data is None
}

/// A request waiting for the user's answer.
pub struct HeldRequest {
    pub line: String,
    pub action: AgentAction,
    pub partial: PartialAction,
    pub started_ns: u64,
    pub scope: &'static str,
}

/// What a step asks the caller to do: publish a live action (update the
/// activity view and notify the UI), append a trace record, send bytes to
/// the server, send bytes to the client.
pub struct StepOutput {
    pub publish: Option<AgentAction>,
    pub trace: Option<Action>,
    pub to_server: Option<String>,
    pub to_client: Option<String>,
}

/// The outcome of a client line.
pub enum ClientStep {
    Done(StepOutput),
    /// The request needs `scope`: publish `action` (pending), show the
    /// approval prompt, and report the answer with `on_approval`.
    AskUser { action: AgentAction, scope: &'static str },
}

/// The state of one proxied connection.
pub struct ProxySession {
    server_id: String,
    granted: Vec<PersistedPermission>,
    pending: StrMap<InFlight>,
    counters: SessionCounters,
    next_seq: u64,
    cause_id: Option<TraceId>,
    traced: bool,
    held: Option<HeldRequest>,
}

/// The arguments of the `start` lifecycle record: `{"event": "start"}`.
pub open spec fn start_event_args() -> Option<Json> {
    Some(Json::Object(seq![("event"@, Json::Str("start"@))]))
}

/// `n + 1`, wrapping to 0 past `u64::MAX`.
pub open spec fn wrap_inc(n: u64) -> u64 {
    if n == u64::MAX {
        0
    } else {
        (n + 1) as u64
    }
}

impl ProxySession {
    pub closed spec fn wf(&self) -> bool {
        &&& self.pending.wf()
        &&& self.held matches Some(h) ==> !crate::session::partial::has_tag(h.partial.tags@, seq!['d', 'e', 'n', 'i', 'e', 'd'])
    }

    pub closed spec fn server(&self) -> Seq<char> {
        self.server_id@
    }

    /// The permissions requests are checked against.
    pub closed spec fn granted_perms(&self) -> Seq<PersistedPermission> {
        self.granted@
    }

    /// Forwarded requests awaiting a response, by request-id key.
    pub closed spec fn in_flight(&self) -> Map<Seq<char>, InFlight> {
        self.pending.map()
    }

    pub closed spec fn tally(&self) -> CountersView {
        self.counters@
    }

    /// The sequence number the next traced action gets.
    pub closed spec fn seq_next(&self) -> u64 {
        self.next_seq
    }

    /// The id of the session's start record, once there is one.
    pub closed spec fn cause(&self) -> Option<TraceId> {
        self.cause_id
    }

    /// Whether trace records are produced.
    pub closed spec fn traced(&self) -> bool {
        self.traced
    }

    pub closed spec fn held(&self) -> Option<HeldRequest> {
        self.held
    }
}

/// Server, permissions, trace settings and cause are unchanged.
pub open spec fn same_setup(old: ProxySession, new: ProxySession) -> bool {
    &&& new.server() == old.server()
    &&& new.granted_perms() == old.granted_perms()
    &&& new.cause() == old.cause()
    &&& new.traced() == old.traced()
}

/// Forwarding the request `line` whose live action is `action`, with the
/// user's verdict `decision` when one was asked: the action is published as
/// pending and the line goes to the server. A request with an id is tracked
/// until its response; one without is complete at once, and traced as a
/// success of no duration. The trace records `decision` either way.
pub open spec fn forwarded(
    old: ProxySession,
    new: ProxySession,
    out: StepOutput,
    line: Seq<char>,
    action: AgentActionView,
    partial: PartialAction,
    started_ns: u64,
    decision: Option<SandboxDecision>,
) -> bool {
    &&& same_setup(old, new)
    &&& new.held() is None
    &&& out.to_server matches Some(b)
    &&& b@ == line + "\n"@
    &&& out.to_client is None
    &&& out.publish matches Some(pa)
    &&& pa@ == with_status(action, ActionStatus::Pending)
    &&& match action.request_id {
        Some(id) => {
            let k = rpc_key_spec(id);
            &&& new.in_flight() == old.in_flight().insert(k, new.in_flight()[k])
            &&& new.in_flight()[k].action@ == with_status(action, ActionStatus::Pending)
            &&& new.in_flight()[k].partial == partial
            &&& new.in_flight()[k].started_ns == started_ns
            &&& new.in_flight()[k].decision == decision
            &&& out.trace is None
            &&& new.tally() == old.tally()
        },
        None => {
            &&& new.in_flight() == old.in_flight()
            &&& if old.traced() {
                &&& out.trace matches Some(t)
                &&& completed_ok(t, partial, None, 0, decision)
                &&& new.tally() == recorded(old.tally(), Outcome::Success, Some(0u64))
            } else {
                &&& out.trace is None
                &&& new.tally() == old.tally()
            }
        },
    }
}

/// Denying the request whose live action is `action`: the action is
/// published as denied with its reason, nothing goes to the server, a
/// request with an id is answered with the JSON-RPC error, and the denial
/// is traced with the time since the request arrived.
pub open spec fn denied(
    old: ProxySession,
    new: ProxySession,
    out: StepOutput,
    action: AgentActionView,
    partial: PartialAction,
    started_ns: u64,
    now_ns: u64,
    scope: Seq<char>,
    reason: Seq<char>,
) -> bool {
    &&& same_setup(old, new)
    &&& new.held() is None
    &&& new.in_flight() == old.in_flight()
    &&& out.to_server is None
    &&& out.publish matches Some(pa)
    &&& pa@ == with_denial(action, denied_reason_spec(reason, scope))
    &&& match action.request_id {
        Some(id) => out.to_client matches Some(c) && c@ == canonical(denial_json(id, scope, reason)) + "\n"@,
        None => out.to_client is None,
    }
    &&& if old.traced() {
        &&& out.trace matches Some(t)
        &&& denied_trace(t, partial, scope, reason, elapsed_spec(started_ns, now_ns))
        &&& new.tally() == recorded(old.tally(), Outcome::Denied, Some(elapsed_spec(started_ns, now_ns)))
    } else {
        &&& out.trace is None
        &&& new.tally() == old.tally()
    }
}

/// What handling the client line `line` does (the line, with leading
/// whitespace removed, decoded as JSON): a
/// line that is not a classified request is forwarded as it is and changes
/// nothing; a classified request takes the next sequence number and is
/// forwarded when its scope is granted (or it needs none), or else held
/// while the user is asked for the scope, with nothing sent anywhere.
pub open spec fn client_step(
    old: ProxySession,
    new: ProxySession,
    line: Seq<char>,
    wall: WallTime,
    mono_ns: u64,
    r: ClientStep,
) -> bool {
    match jsonrpc_fields(line, decoded_line(line)) {
        None => {
            &&& r matches ClientStep::Done(out)
            &&& out.publish is None
            &&& out.trace is None
            &&& out.to_client is None
            &&& out.to_server matches Some(b)
            &&& b@ == line + "\n"@
            &&& new == old
        },
        Some(f) => {
            let seq = old.seq_next();
            &&& new.seq_next() == wrap_inc(seq)
            &&& match ask_scope_spec(f.0, old.granted_perms()) {
                None => {
                    &&& r matches ClientStep::Done(out)
                    &&& out.publish matches Some(pa)
                    &&& request_action(pa@, f, old.server())
                    &&& exists|p: PartialAction|
                        #[trigger] request_partial(p, f, seq, old.cause(), wall, mono_ns)
                        && forwarded(old, new, out, line, pa@, p, mono_ns, None)
                },
                Some(scope) => {
                    &&& r matches ClientStep::AskUser { action, scope: s }
                    &&& s@ == scope
                    &&& request_action(action@, f, old.server())
                    &&& action.status == ActionStatus::Pending
                    &&& same_setup(old, new)
                    &&& new.in_flight() == old.in_flight()
                    &&& new.tally() == old.tally()
                    &&& new.held() matches Some(h)
                    &&& h.line@ == line
                    &&& h.action@ == action@
                    &&& request_partial(h.partial, f, seq, old.cause(), wall, mono_ns)
                    &&& h.started_ns == mono_ns
                    &&& h.scope == s
                },
            }
        },
    }
}

/// What applying the user's answer `decision` to the held request does:
/// Allow Once forwards it, recording the allow verdict; Always Allow does
/// the same and returns the permission to persist; Deny and a closed
/// prompt deny it with the reason shown.
pub open spec fn approval_applied(
    old: ProxySession,
    new: ProxySession,
    r: (StepOutput, Option<RequestedPermission>),
    decision: Option<ApprovalDecision>,
    now_ns: u64,
) -> bool {
    let h = old.held()->0;
    let tool = h.action.tool_name@;
    match decision {
        Some(ApprovalDecision::AllowOnce) => {
            &&& exists|d: SandboxDecision|
                #[trigger] prompted_allow(d, h.scope@, "allow_once"@, "User allowed "@ + tool + " once via runtime prompt"@)
                && forwarded(old, new, r.0, h.line@, h.action@, h.partial, h.started_ns, Some(d))
            &&& r.1 is None
        },
        Some(ApprovalDecision::AllowSession) => {
            &&& exists|d: SandboxDecision|
                #[trigger] prompted_allow(d, h.scope@, "allow_session"@, "User granted via runtime prompt ("@ + tool + ")"@)
                && forwarded(old, new, r.0, h.line@, h.action@, h.partial, h.started_ns, Some(d))
            &&& r.1 matches Some(p)
            &&& p.scope@ == h.scope@
            &&& p.target is None
            &&& opt_str(p.reason) == Some("User granted via runtime prompt ("@ + tool + ")"@)
        },
        Some(ApprovalDecision::Deny) => {
            &&& denied(
                old,
                new,
                r.0,
                h.action@,
                h.partial,
                h.started_ns,
                now_ns,
                h.scope@,
                "User denied "@ + tool + " via runtime prompt"@,
            )
            &&& r.1 is None
        },
        None => {
            &&& denied(
                old,
                new,
                r.0,
                h.action@,
                h.partial,
                h.started_ns,
                now_ns,
                h.scope@,
                "Approval prompt closed without response"@,
            )
            &&& r.1 is None
        },
    }
}

/// Approval flow integrity: a request whose scope is not granted is held,
/// with nothing sent for it, and once the user answers it reaches the
/// server (exactly as the client sent it) if and only if the user allowed
/// it, once or always. On Deny, or a prompt closed without an answer, it
/// never reaches the server.
pub proof fn lemma_unapproved_request_forwarded_only_if_allowed(
    s0: ProxySession,
    s1: ProxySession,
    s2: ProxySession,
    line: Seq<char>,
    wall: WallTime,
    mono_ns: u64,
    step: ClientStep,
    r: (StepOutput, Option<RequestedPermission>),
    decision: Option<ApprovalDecision>,
    now_ns: u64,
)
    requires
        client_step(s0, s1, line, wall, mono_ns, step),
        jsonrpc_fields(line, decoded_line(line)) matches Some(f) && ask_scope_spec(f.0, s0.granted_perms()) is Some,
        approval_applied(s1, s2, r, decision, now_ns),
    ensures
        step is AskUser,
        s1.held() matches Some(h) && h.line@ == line,
        (r.0.to_server is Some) <==> (decision == Some(ApprovalDecision::AllowOnce) || decision == Some(
            ApprovalDecision::AllowSession,
        )),
        r.0.to_server matches Some(b) ==> b@ == line + "\n"@,
{
    let h = s1.held()->0;
    match decision {
        Some(ApprovalDecision::AllowOnce) => {
            let tool = h.action.tool_name@;
            let d = choose|d: SandboxDecision|
                #[trigger] prompted_allow(d, h.scope@, "allow_once"@, "User allowed "@ + tool + " once via runtime prompt"@)
                && forwarded(s1, s2, r.0, h.line@, h.action@, h.partial, h.started_ns, Some(d));
        },
        Some(ApprovalDecision::AllowSession) => {
            let tool = h.action.tool_name@;
            let d = choose|d: SandboxDecision|
                #[trigger] prompted_allow(d, h.scope@, "allow_session"@, "User granted via runtime prompt ("@ + tool + ")"@)
                && forwarded(s1, s2, r.0, h.line@, h.action@, h.partial, h.started_ns, Some(d));
        },
        _ => {},
    }
}

proof fn lemma_kind_tag_not_denied(kind: ActionKind)
    ensures
        kind_tag_spec(kind) != seq!['d', 'e', 'n', 'i', 'e', 'd'],
{
    reveal_strlit("fs-read");
    reveal_strlit("fs-write");
    reveal_strlit("browser-open");
    reveal_strlit("http-fetch");
    reveal_strlit("terminal-exec");
    reveal_strlit("memory-store");
    reveal_strlit("search");
    reveal_strlit("tool-call");
    reveal_strlit("other");
    let d = seq!['d', 'e', 'n', 'i', 'e', 'd'];
    let t = kind_tag_spec(kind);
    assert(t.len() != d.len() || t[0] != d[0]);
}

impl ProxySession {
    /// A connection to `server_id`, checked against `granted`, producing
    /// trace records when `traced`.
    pub fn new(server_id: String, granted: Vec<PersistedPermission>, traced: bool) -> (s: Self)
        ensures
            s.wf(),
            s.server() == server_id@,
            s.granted_perms() == granted@,
            s.in_flight() == Map::<Seq<char>, InFlight>::empty(),
            s.tally() == (CountersView { total: 0, ok: 0, denied: 0, error: 0, durations_ns: Seq::empty() }),
            s.seq_next() == 0,
            s.cause() is None,
            s.traced() == traced,
            s.held() is None,
    {
        ProxySession {
            server_id,
            granted,
            pending: StrMap::new(),
            counters: SessionCounters::new(),
            next_seq: 0,
            cause_id: None,
            traced,
            held: None,
        }
    }

    fn take_seq(&mut self) -> (seq: u64)
        ensures
            seq == old(self).next_seq,
            final(self).next_seq == wrap_inc(old(self).next_seq),
            final(self).server_id == old(self).server_id,
            final(self).granted == old(self).granted,
            final(self).pending == old(self).pending,
            final(self).counters == old(self).counters,
            final(self).cause_id == old(self).cause_id,
            final(self).traced == old(self).traced,
            final(self).held == old(self).held,
    {
        let seq = self.next_seq;
        self.next_seq = if self.next_seq == u64::MAX { 0 } else { self.next_seq + 1 };
        seq
    }

    /// Opens the trace: when traced, the `start` lifecycle record (sequence
    /// number taken, time `wall`, monotonic 0) is returned and its id
    /// becomes the cause of every later action.
    pub fn start(&mut self, wall: WallTime) -> (r: Option<Action>)
        requires
            old(self).wf(),
        ensures
            final(self).wf(),
            final(self).server() == old(self).server(),
            final(self).granted_perms() == old(self).granted_perms(),
            final(self).traced() == old(self).traced(),
            final(self).in_flight() == old(self).in_flight(),
            final(self).tally() == old(self).tally(),
            final(self).held() == old(self).held(),
            if old(self).traced() {
                &&& r matches Some(t)
                &&& final(self).cause() == Some(t.id)
                &&& final(self).seq_next() == wrap_inc(old(self).seq_next())
                &&& t.seq == old(self).seq_next()
                &&& t.parent_id is None
                &&& t.cause_id is None
                &&& t.ts_wall == wall
                &&& t.ts_mono_ns == 0
                &&& t.kind == Kind::SessionEvent
                &&& t.actor == Actor::System
                &&& t.tool is None
                &&& opt_json(t.args) == capped(start_event_args())
                &&& t.duration_ns == Some(0u64)
                &&& t.result is None
                &&& t.outcome == Outcome::Success
                &&& t.error is None
                &&& t.decision is None
                &&& t.payload_hash@ == payload_hash_spec(start_event_args(), None)
                &&& t.payload_truncated == over_cap(start_event_args())
                &&& t.payload_size_bytes as int == payload_size_spec(start_event_args(), None)
                &&& t.tags@.len() == 1
                &&& t.tags@[0]@ == "lifecycle"@
            } else {
                &&& r is None
                &&& final(self).cause() == old(self).cause()
                &&& final(self).seq_next() == old(self).seq_next()
            },
    {
        if !self.traced {
            return None;
        }
        let seq = self.take_seq();
        let partial = PartialAction::lifecycle(seq, "start", wall, 0);
        proof {
            reveal_strlit("event");
            reveal_strlit("lifecycle");
            assert("event"@ == seq!['e', 'v', 'e', 'n', 't']);
            assert("lifecycle"@ == seq!['l', 'i', 'f', 'e', 'c', 'y', 'c', 'l', 'e']);
        }
        let id = partial.id;
        self.cause_id = Some(id);
        let t = partial.complete(None, 0, None);
        Some(t)
    }

    fn forward(
        &mut self,
        line: String,
        action: AgentAction,
        partial: PartialAction,
        started_ns: u64,
        decision: Option<SandboxDecision>,
    ) -> (out: StepOutput)
        requires
            old(self).wf(),
        ensures
            final(self).wf(),
            final(self).seq_next() == old(self).seq_next(),
            forwarded(*old(self), *final(self), out, line@, action@, partial, started_ns, decision),
    {
        let mut action = action;
        action.status = ActionStatus::Pending;
        let publish = action.clone();
        let key: Option<String> = match &action.request_id {
            Some(id) => Some(rpc_id_key(id)),
            None => None,
        };
        let mut trace: Option<Action> = None;
        match key {
            Some(k) => {
                self.pending.insert(k, InFlight { action, partial, started_ns, decision });
            },
            None => {
                if self.traced {
                    let t = partial.complete(None, 0, decision);
                    self.counters.record(t.outcome, t.duration_ns);
                    trace = Some(t);
                }
            },
        }
        self.held = None;
        StepOutput { publish: Some(publish), trace, to_server: Some(framed(line.as_str())), to_client: None }
    }

    fn deny(
        &mut self,
        action: AgentAction,
        partial: PartialAction,
        started_ns: u64,
        now_ns: u64,
        scope: &'static str,
        reason: String,
    ) -> (out: StepOutput)
        requires
            old(self).wf(),
            !crate::session::partial::has_tag(partial.tags@, seq!['d', 'e', 'n', 'i', 'e', 'd']),
        ensures
            final(self).wf(),
            final(self).seq_next() == old(self).seq_next(),
            denied(*old(self), *final(self), out, action@, partial, started_ns, now_ns, scope@, reason@),
    {
        let mut action = action;
        action.status = ActionStatus::Denied;
        let mut shown = reason.clone();
        push_all(&mut shown, " (required scope: ");
        push_all(&mut shown, scope);
        push_all(&mut shown, ")");
        action.denied_reason = Some(shown);
        let to_client: Option<String> = match &action.request_id {
            Some(id) => Some(denial_response(id, scope, reason.as_str())),
            None => None,
        };
        let mut trace: Option<Action> = None;
        if self.traced {
            let decision = SandboxDecision {
                verdict: owned("deny"),
                rule_id: owned(scope),
                reason: reason.clone(),
                mode: owned("enforce"),
                prompted: true,
                prompt_resolution: Some(owned("deny")),
            };
            let error = ActionError {
                code: owned("SANDBOX_DENY"),
                message: reason.clone(),
                source: owned("sandbox"),
                data: None,
            };
            let dur = elapsed_ns(started_ns, now_ns);
            let t = partial.complete_denied(decision, error, Some(dur));
            proof {
                reveal_strlit("denied");
                assert("denied"@ == seq!['d', 'e', 'n', 'i', 'e', 'd']);
                assert(t.tags@.last()@ == "denied"@);
            }
            self.counters.record(t.outcome, t.duration_ns);
            trace = Some(t);
        }
        self.held = None;
        StepOutput { publish: Some(action), trace, to_server: None, to_client }
    }

    /// The trace partial of a classified request: it takes the next
    /// sequence number and carries the tag of the action's kind.
    fn request_partial_for(&mut self, action: &AgentAction, wall: WallTime, mono_ns: u64) -> (p: PartialAction)
        requires
            old(self).wf(),
        ensures
            final(self).wf(),
            same_setup(*old(self), *final(self)),
            final(self).in_flight() == old(self).in_flight(),
            final(self).tally() == old(self).tally(),
            final(self).held() == old(self).held(),
            final(self).seq_next() == wrap_inc(old(self).seq_next()),
            request_partial(
                p,
                (action.kind, action.tool_name@, opt_str(action.target), opt_json(action.params), opt_json(action.request_id)),
                old(self).seq_next(),
                old(self).cause(),
                wall,
                mono_ns,
            ),
    {
        let seq = self.take_seq();
        let tool = action.tool_name.clone();
        let args = crate::json::clone_opt_json(&action.params);
        let tag = action_kind_tag(action.kind);
        PartialAction::tool_call(seq, tool, args, wall, mono_ns, self.cause_id).with_tag(tag)
    }

    fn hold(&mut self, line: String, action: AgentAction, partial: PartialAction, started_ns: u64, scope: &'static str) -> (r: ClientStep)
        requires
            old(self).wf(),
            partial.tags@.len() == 1,
            partial.tags@[0]@ == kind_tag_spec(action.kind),
        ensures
            final(self).wf(),
            same_setup(*old(self), *final(self)),
            final(self).in_flight() == old(self).in_flight(),
            final(self).tally() == old(self).tally(),
            final(self).seq_next() == old(self).seq_next(),
            ({
                &&& r matches ClientStep::AskUser { action: shown, scope: s }
                &&& s == scope
                &&& shown@ == with_status(action@, ActionStatus::Pending)
                &&& final(self).held() matches Some(h)
                &&& h.line == line
                &&& h.action@ == shown@
                &&& h.partial == partial
                &&& h.started_ns == started_ns
                &&& h.scope == scope
            }),
    {
        let mut action = action;
        action.status = ActionStatus::Pending;
        let shown = action.clone();
        proof {
            lemma_kind_tag_not_denied(action.kind);
            assert(!crate::session::partial::has_tag(partial.tags@, seq!['d', 'e', 'n', 'i', 'e', 'd']));
        }
        self.held = Some(HeldRequest { line, action, partial, started_ns, scope });
        ClientStep::AskUser { action: shown, scope }
    }

    /// Handles one line from the client, decoding it as JSON itself. Lines
    /// the classifier does not take as a `tools/call` request are forwarded
    /// as they are. A classified request takes the next sequence number; it is
    /// forwarded when its scope is granted (or it needs none), and is
    /// otherwise held while the user is asked for the scope.
    pub fn on_client_line(&mut self, line: String, wall: WallTime, mono_ns: u64) -> (r: ClientStep)
        requires
            old(self).wf(),
            old(self).held() is None,
        ensures
            final(self).wf(),
            client_step(*old(self), *final(self), line@, wall, mono_ns, r),
    {
        let classified = classify_jsonrpc(line.as_str(), self.server_id.as_str());
        let mut action = match classified {
            None => {
                let b = framed(line.as_str());
                return ClientStep::Done(StepOutput { publish: None, trace: None, to_server: Some(b), to_client: None });
            },
            Some(a) => a,
        };
        let partial = self.request_partial_for(&action, wall, mono_ns);
        let decision = {
            let target: Option<&str> = match &action.target {
                Some(t) => Some(t.as_str()),
                None => None,
            };
            enforce_permission(action.kind, target, &self.granted)
        };
        match decision {
            Decision::Allow => {
                let out = self.forward(line, action, partial, mono_ns, None);
                ClientStep::Done(out)
            },
            Decision::AskUser { scope } => self.hold(line, action, partial, mono_ns, scope),
        }
    }

    /// Applies the user's answer to the held request (`None`: the prompt was
    /// closed without one). Allow Once forwards it; Always Allow forwards it
    /// and returns the permission to persist (after which the caller hands
    /// the refreshed grants to `set_granted`); Deny and a closed prompt deny
    /// it with the reason the user is shown.
    pub fn on_approval(&mut self, decision: Option<ApprovalDecision>, now_ns: u64) -> (r: (StepOutput, Option<RequestedPermission>))
        requires
            old(self).wf(),
            old(self).held() is Some,
        ensures
            final(self).wf(),
            final(self).seq_next() == old(self).seq_next(),
            approval_applied(*old(self), *final(self), r, decision, now_ns),
    {
        let mut held: Option<HeldRequest> = None;
        std::mem::swap(&mut held, &mut self.held);
        let h = match held {
            Some(h) => h,
            None => {
                return (StepOutput { publish: None, trace: None, to_server: None, to_client: None }, None);
            },
        };
        let HeldRequest { line, action, partial, started_ns, scope } = h;
        let resolution = resolve_decision(decision, scope, action.tool_name.as_str());
        match resolution {
            Resolution::Proceed { persist, decision } => {
                let ghost d = decision;
                let out = self.forward(line, action, partial, started_ns, Some(decision));
                assert(forwarded(*old(self), *self, out, line@, action@, partial, started_ns, Some(d)));
                (out, persist)
            },
            Resolution::Denied(d) => {
                let out = self.deny(action, partial, started_ns, now_ns, d.scope, d.reason);
                (out, None)
            },
        }
    }

    /// Replaces the permissions later requests are checked against.
    pub fn set_granted(&mut self, granted: Vec<PersistedPermission>)
        requires
            old(self).wf(),
        ensures
            final(self).wf(),
            final(self).granted_perms() == granted@,
            final(self).server() == old(self).server(),
            final(self).cause() == old(self).cause(),
            final(self).traced() == old(self).traced(),
            final(self).in_flight() == old(self).in_flight(),
            final(self).tally() == old(self).tally(),
            final(self).seq_next() == old(self).seq_next(),
            final(self).held() == old(self).held(),
    {
        self.granted = granted;
    }

    /// Handles one line from the server, decoding it as JSON itself. Every
    /// line goes on to the client.
    /// A response to a tracked request completes it: the live action is
    /// published with its latency and outcome, and the completed record is
    /// traced.
    pub fn on_server_line(&mut self, line: &str, wall: WallTime, now_ns: u64) -> (out: StepOutput)
        requires
            old(self).wf(),
        ensures
            final(self).wf(),
            same_setup(*old(self), *final(self)),
            final(self).seq_next() == old(self).seq_next(),
            final(self).held() == old(self).held(),
            out.to_server is None,
            out.to_client matches Some(b) && b@ == line@ + "\n"@,
            ({
                let key = response_key(line@, decoded_line(line@));
                if key is Some && old(self).in_flight().contains_key(key->0) {
                    let inf = old(self).in_flight()[key->0];
                    let dur = elapsed_spec(inf.started_ns, now_ns);
                    let resp = decoded_line(line@)->0;
                    &&& final(self).in_flight() == old(self).in_flight().remove(key->0)
                    &&& out.publish matches Some(a)
                    &&& a@ == answered(inf.action@, resp, dur, wall)
                    &&& if old(self).traced() {
                        &&& out.trace matches Some(t)
                        &&& completed_by_response(t, inf.partial, resp, dur, inf.decision)
                        &&& final(self).tally() == recorded(old(self).tally(), t.outcome, Some(dur))
                    } else {
                        &&& out.trace is None
                        &&& final(self).tally() == old(self).tally()
                    }
                } else {
                    &&& final(self).in_flight() == old(self).in_flight()
                    &&& final(self).tally() == old(self).tally()
                    &&& out.publish is None
                    &&& out.trace is None
                }
            }),
    {
        let m = match_response(line, &mut self.pending, wall, now_ns);
        let to_client = Some(framed(line));
        match m {
            Some(ResponseMatch { action, trace }) => {
                if self.traced {
                    self.counters.record(trace.outcome, trace.duration_ns);
                    StepOutput { publish: Some(action), trace: Some(trace), to_server: None, to_client }
                } else {
                    StepOutput { publish: Some(action), trace: None, to_server: None, to_client }
                }
            },
            None => StepOutput { publish: None, trace: None, to_server: None, to_client },
        }
    }

    /// The running tally for the session's final stats.
    pub fn counters(&self) -> (c: &SessionCounters)
        ensures
            c@ == self.tally(),
    {
        &self.counters
    }

    /// The permissions requests are checked against.
    pub fn granted(&self) -> (g: &Vec<PersistedPermission>)
        ensures
            g@ == self.granted_perms(),
    {
        &self.granted
    }

    /// Whether a request is waiting for the user's answer.
    pub fn is_awaiting_approval(&self) -> (b: bool)
        ensures
            b == self.held() is Some,
    {
        self.held.is_some()
    }

    /// How many forwarded requests await a response.
    pub fn pending_count(&self) -> (n: usize)
        requires
            self.wf(),
        ensures
            n == self.in_flight().len(),
    {
        self.pending.len()
    }
}

} // verus!
