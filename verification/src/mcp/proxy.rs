//! The proxy's per-connection decisions.
//!
//! Every JSON-RPC frame a client sends through the hub is classified; a
//! `tools/call` whose scope is not granted waits for the user's approval,
//! and is then either forwarded to the server or answered with a JSON-RPC
//! error. Server responses are paired with their pending request to complete
//! the live action and its session-trace record. The I/O (sockets, child
//! stdio, the approval prompt, the trace file) is done by the caller; this
//! module decides what to send where.

use vstd::prelude::*;

use crate::db::models::McpServer;
use crate::db::permissions::{PersistedPermission, RequestedPermission};
use crate::json::{json_get, opt_json, Json, JsonMember, JsonValue};
use crate::mcp::agent::{opt_str, ActionKind};
use crate::security::approvals::ApprovalDecision;
use crate::session::hash::{canonical, canonical_json};
use crate::session::types::{
    AppInfo, ClientInfo, Outcome, SandboxConfig, SandboxDecision, ServerInfo, SessionMeta, Stats, TraceId, WallTime,
};
use crate::text::{
    chars_of, clone_opt_string, clone_strings, decimal, owned, push_all, signed_decimal, str_eq,
};

verus! {

// ---------------------------------------------------------------------------
// Permission gate
// ---------------------------------------------------------------------------

/// Outcome of the permission check for one request.
pub enum Decision {
    /// Scope already granted (or none required): proceed without asking.
    Allow,
    /// Scope required but not granted: ask the user.
    AskUser { scope: &'static str },
}

/// The scope an action of this kind needs, if any.
pub open spec fn required_scope_spec(kind: ActionKind) -> Option<Seq<char>> {
    match kind {
        ActionKind::FsRead => Some("fs.read"@),
        ActionKind::FsWrite => Some("fs.write"@),
        ActionKind::HttpFetch | ActionKind::BrowserOpen | ActionKind::Search => Some("internet"@),
        ActionKind::TerminalExec => Some("terminal"@),
        ActionKind::MemoryStore | ActionKind::ToolCall | ActionKind::Other => None,
    }
}

/// Whether a permission grants `required` (`net.outbound` also grants
/// `internet`).
pub open spec fn grants(p: PersistedPermission, required: Seq<char>) -> bool {
    p.granted && (p.scope@ == required || (required == "internet"@ && p.scope@ == "net.outbound"@))
}

/// Whether some permission grants `required`.
pub open spec fn any_grant(granted: Seq<PersistedPermission>, required: Seq<char>) -> bool {
    exists|i: int| 0 <= i < granted.len() && grants(#[trigger] granted[i], required)
}

/// The scope to ask for, or `None` when the request may proceed.
pub open spec fn ask_scope_spec(kind: ActionKind, granted: Seq<PersistedPermission>) -> Option<Seq<char>> {
    match required_scope_spec(kind) {
        None => None,
        Some(r) => if any_grant(granted, r) {
            None
        } else {
            Some(r)
        },
    }
}

fn required_scope(kind: ActionKind) -> (r: Option<&'static str>)
    ensures
        match r { Some(s) => Some(s@), None => None } == required_scope_spec(kind),
{
    match kind {
        ActionKind::FsRead => Some("fs.read"),
        ActionKind::FsWrite => Some("fs.write"),
        ActionKind::HttpFetch | ActionKind::BrowserOpen | ActionKind::Search => Some("internet"),
        ActionKind::TerminalExec => Some("terminal"),
        ActionKind::MemoryStore | ActionKind::ToolCall | ActionKind::Other => None,
    }
}

/// Checks a request against the granted permissions: kinds without a scope
/// (memory, generic tool calls, other) are allowed; otherwise the request is
/// allowed when some granted permission carries its scope, and the user is
/// asked for that scope when none does.
pub fn enforce_permission(kind: ActionKind, _target: Option<&str>, granted: &Vec<PersistedPermission>) -> (d: Decision)
    ensures
        match d {
            Decision::Allow => ask_scope_spec(kind, granted@) is None,
            Decision::AskUser { scope } => ask_scope_spec(kind, granted@) == Some(scope@),
        },
{
    let required = match required_scope(kind) {
        Some(r) => r,
        None => return Decision::Allow,
    };
    let mut i: usize = 0;
    while i < granted.len()
        invariant
            i <= granted.len(),
            required_scope_spec(kind) == Some(required@),
            forall|j: int| 0 <= j < i ==> !grants(#[trigger] granted@[j], required@),
        decreases granted.len() - i,
    {
        let p = &granted[i];
        if p.granted {
            let scope = p.scope.as_str();
            if str_eq(scope, required) || (str_eq(required, "internet") && str_eq(scope, "net.outbound")) {
                assert(grants(granted@[i as int], required@));
                return Decision::Allow;
            }
        }
        i = i + 1;
    }
    Decision::AskUser { scope: required }
}

/// Granting more permissions never turns an allowed request into one that
/// needs approval.
pub proof fn lemma_grants_monotone(kind: ActionKind, a: Seq<PersistedPermission>, b: Seq<PersistedPermission>)
    requires
        forall|i: int| 0 <= i < a.len() ==> #[trigger] b.contains(a[i]),
        ask_scope_spec(kind, a) is None,
    ensures
        ask_scope_spec(kind, b) is None,
{
    match required_scope_spec(kind) {
        None => {},
        Some(r) => {
            let i = choose|i: int| 0 <= i < a.len() && grants(#[trigger] a[i], r);
            assert(b.contains(a[i]));
            let j = choose|j: int| 0 <= j < b.len() && b[j] == a[i];
            assert(grants(b[j], r));
        },
    }
}

/// Which requests need the user's approval: a network-reaching request
/// (fetch, browser, search) needs `internet`, which a granted `internet` or
/// `net.outbound` permission gives; a file read needs `fs.read`, a file
/// write `fs.write` and command execution `terminal`, each given only by a
/// granted permission of that scope; memory, generic tool calls and other
/// requests need nothing. The scope asked for is the one needed.
pub proof fn lemma_scopes_needed(kind: ActionKind, granted: Seq<PersistedPermission>)
    ensures
        (kind == ActionKind::HttpFetch || kind == ActionKind::BrowserOpen || kind == ActionKind::Search)
            ==> ask_scope_spec(kind, granted) == if exists|i: int|
                0 <= i < granted.len() && #[trigger] granted[i].granted && (granted[i].scope@ == "internet"@
                    || granted[i].scope@ == "net.outbound"@) {
                None
            } else {
                Some("internet"@)
            },
        kind == ActionKind::FsRead ==> ask_scope_spec(kind, granted) == if exists|i: int|
            0 <= i < granted.len() && #[trigger] granted[i].granted && granted[i].scope@ == "fs.read"@ {
            None
        } else {
            Some("fs.read"@)
        },
        kind == ActionKind::FsWrite ==> ask_scope_spec(kind, granted) == if exists|i: int|
            0 <= i < granted.len() && #[trigger] granted[i].granted && granted[i].scope@ == "fs.write"@ {
            None
        } else {
            Some("fs.write"@)
        },
        kind == ActionKind::TerminalExec ==> ask_scope_spec(kind, granted) == if exists|i: int|
            0 <= i < granted.len() && #[trigger] granted[i].granted && granted[i].scope@ == "terminal"@ {
            None
        } else {
            Some("terminal"@)
        },
        (kind == ActionKind::MemoryStore || kind == ActionKind::ToolCall || kind == ActionKind::Other)
            ==> ask_scope_spec(kind, granted) is None,
{
    reveal_strlit("internet");
    reveal_strlit("fs.read");
    reveal_strlit("fs.write");
    reveal_strlit("terminal");
    assert("fs.read"@.len() != "internet"@.len());
    assert("fs.write"@[0] != "internet"@[0]);
    assert("terminal"@.len() == "internet"@.len());
    assert("terminal"@[0] != "internet"@[0]);
    let r = required_scope_spec(kind);
    if r is Some {
        let req = r->0;
        if any_grant(granted, req) {
            let i = choose|i: int| 0 <= i < granted.len() && grants(#[trigger] granted[i], req);
            assert(granted[i].granted);
        }
        if exists|i: int| 0 <= i < granted.len() && #[trigger] granted[i].granted && (granted[i].scope@ == req
            || (req == "internet"@ && granted[i].scope@ == "net.outbound"@)) {
            let i = choose|i: int| 0 <= i < granted.len() && #[trigger] granted[i].granted && (granted[i].scope@
                == req || (req == "internet"@ && granted[i].scope@ == "net.outbound"@));
            assert(grants(granted[i], req));
        }
    }
}

/// Once a permission for the scope that was asked for is granted (as Always
/// Allow stores it), a later request of the same kind is not asked again:
/// with that permission among the grants, the check lets it through.
pub proof fn lemma_granted_scope_not_asked_again(kind: ActionKind, granted: Seq<PersistedPermission>, p: PersistedPermission)
    requires
        required_scope_spec(kind) == Some(p.scope@),
        p.granted,
        granted.contains(p),
    ensures
        ask_scope_spec(kind, granted) is None,
{
    let i = choose|i: int| 0 <= i < granted.len() && granted[i] == p;
    assert(grants(granted[i], p.scope@));
}

/// A request whose scope the user declined: the scope and why.
pub struct DenyResult {
    pub scope: &'static str,
    pub reason: String,
}

/// What an approval prompt resolved to. `None` stands for a prompt closed
/// without an answer, which is treated as a denial.
pub enum Resolution {
    /// Proceed, recording the user's `allow` verdict; when `persist` holds,
    /// the scope is to be granted for good.
    Proceed { persist: Option<RequestedPermission>, decision: SandboxDecision },
    Denied(DenyResult),
}

/// The verdict recorded when the user allowed a request needing `scope` at
/// the prompt: `allow` under the rule `scope`, enforcing, prompted, with
/// the prompt's resolution (`allow_once` or `allow_session`) and `reason`.
pub open spec fn prompted_allow(d: SandboxDecision, scope: Seq<char>, resolution: Seq<char>, reason: Seq<char>) -> bool {
    &&& d.verdict@ == "allow"@
    &&& d.rule_id@ == scope
    &&& d.reason@ == reason
    &&& d.mode@ == "enforce"@
    &&& d.prompted
    &&& d.prompt_resolution matches Some(r) && r@ == resolution
}

fn allow_decision(scope: &str, resolution: &str, reason: String) -> (d: SandboxDecision)
    ensures
        prompted_allow(d, scope@, resolution@, reason@),
{
    SandboxDecision {
        verdict: owned("allow"),
        rule_id: owned(scope),
        reason,
        mode: owned("enforce"),
        prompted: true,
        prompt_resolution: Some(owned(resolution)),
    }
}

/// How a user's answer is applied: Allow Once proceeds, Always Allow
/// proceeds and persists the scope (with no target and a reason naming the
/// tool), both recording the allow verdict; Deny and a closed prompt are
/// denials with a reason.
pub fn resolve_decision(decision: Option<ApprovalDecision>, scope: &'static str, tool_name: &str) -> (r: Resolution)
    ensures
        decision == Some(ApprovalDecision::AllowOnce) ==> (r matches Resolution::Proceed { persist: None, decision: d }
            && prompted_allow(d, scope@, "allow_once"@, "User allowed "@ + tool_name@ + " once via runtime prompt"@)),
        decision == Some(ApprovalDecision::AllowSession) ==> (r matches Resolution::Proceed { persist: Some(p), decision: d }
            && p.scope@ == scope@ && p.target is None && opt_str(p.reason) == Some(
            "User granted via runtime prompt ("@ + tool_name@ + ")"@,
        ) && prompted_allow(d, scope@, "allow_session"@, "User granted via runtime prompt ("@ + tool_name@ + ")"@)),
        decision == Some(ApprovalDecision::Deny) ==> (r matches Resolution::Denied(d) && d.scope == scope
            && d.reason@ == "User denied "@ + tool_name@ + " via runtime prompt"@),
        decision is None ==> (r matches Resolution::Denied(d) && d.scope == scope
            && d.reason@ == "Approval prompt closed without response"@),
{
    match decision {
        Some(ApprovalDecision::AllowOnce) => {
            let mut reason = owned("User allowed ");
            push_all(&mut reason, tool_name);
            push_all(&mut reason, " once via runtime prompt");
            Resolution::Proceed { persist: None, decision: allow_decision(scope, "allow_once", reason) }
        },
        Some(ApprovalDecision::AllowSession) => {
            let mut reason = owned("User granted via runtime prompt (");
            push_all(&mut reason, tool_name);
            push_all(&mut reason, ")");
            let d = allow_decision(scope, "allow_session", reason.clone());
            Resolution::Proceed {
                persist: Some(RequestedPermission { scope: owned(scope), target: None, reason: Some(reason) }),
                decision: d,
            }
        },
        Some(ApprovalDecision::Deny) => {
            let mut reason = owned("User denied ");
            push_all(&mut reason, tool_name);
            push_all(&mut reason, " via runtime prompt");
            Resolution::Denied(DenyResult { scope, reason })
        },
        None => Resolution::Denied(DenyResult { scope, reason: owned("Approval prompt closed without response") }),
    }
}

// ---------------------------------------------------------------------------
// Session metadata
// ---------------------------------------------------------------------------

pub open spec fn views(v: Seq<String>) -> Seq<Seq<char>> {
    v.map_values(|s: String| s@)
}

pub open spec fn is_fs_scope(scope: Seq<char>) -> bool {
    scope == "fs.read"@ || scope == "fs.write"@
}

pub open spec fn is_net_scope(scope: Seq<char>) -> bool {
    scope == "internet"@ || scope == "net.outbound"@
}

/// The targets of the granted filesystem permissions, in order.
pub open spec fn fs_allow_spec(perms: Seq<PersistedPermission>) -> Seq<Seq<char>>
    decreases perms.len(),
{
    if perms.len() == 0 {
        Seq::empty()
    } else {
        let p = perms.last();
        let rest = fs_allow_spec(perms.drop_last());
        if p.granted && is_fs_scope(p.scope@) && p.target is Some {
            rest.push(p.target->0@)
        } else {
            rest
        }
    }
}

/// The targets of the granted network permissions (`*` when a grant has no
/// target), in order.
pub open spec fn net_allow_spec(perms: Seq<PersistedPermission>) -> Seq<Seq<char>>
    decreases perms.len(),
{
    if perms.len() == 0 {
        Seq::empty()
    } else {
        let p = perms.last();
        let rest = net_allow_spec(perms.drop_last());
        if p.granted && !is_fs_scope(p.scope@) && is_net_scope(p.scope@) {
            rest.push(if p.target is Some { p.target->0@ } else { "*"@ })
        } else {
            rest
        }
    }
}

/// The sandbox section of a session's metadata: enforcing, with the granted
/// filesystem and network targets, fixed filesystem denies, and network
/// denied by default.
pub fn build_sandbox_snapshot(granted: &Vec<PersistedPermission>) -> (c: SandboxConfig)
    ensures
        c.mode@ == "enforce"@,
        views(c.fs_allow@) == fs_allow_spec(granted@),
        views(c.fs_deny@) == seq!["~/.ssh"@, "~/.aws"@, "/etc/"@],
        views(c.net_allow@) == net_allow_spec(granted@),
        c.net_default@ == "deny"@,
{
    let mut fs_allow: Vec<String> = Vec::new();
    let mut net_allow: Vec<String> = Vec::new();
    let mut i: usize = 0;
    while i < granted.len()
        invariant
            i <= granted.len(),
            views(fs_allow@) == fs_allow_spec(granted@.take(i as int)),
            views(net_allow@) == net_allow_spec(granted@.take(i as int)),
        decreases granted.len() - i,
    {
        let p = &granted[i];
        assert(granted@.take(i + 1).drop_last() == granted@.take(i as int));
        assert(granted@.take(i + 1).last() == *p);
        if p.granted {
            let scope = p.scope.as_str();
            if str_eq(scope, "fs.read") || str_eq(scope, "fs.write") {
                match &p.target {
                    Some(t) => fs_allow.push(t.clone()),
                    None => {},
                }
            } else if str_eq(scope, "internet") || str_eq(scope, "net.outbound") {
                match &p.target {
                    Some(t) => net_allow.push(t.clone()),
                    None => net_allow.push(owned("*")),
                }
            }
        }
        assert(views(fs_allow@) =~= fs_allow_spec(granted@.take(i + 1)));
        assert(views(net_allow@) =~= net_allow_spec(granted@.take(i + 1)));
        i = i + 1;
    }
    assert(granted@.take(granted.len() as int) == granted@);
    let mut fs_deny: Vec<String> = Vec::new();
    fs_deny.push(owned("~/.ssh"));
    fs_deny.push(owned("~/.aws"));
    fs_deny.push(owned("/etc/"));
    assert(views(fs_deny@) =~= seq!["~/.ssh"@, "~/.aws"@, "/etc/"@]);
    SandboxConfig {
        mode: owned("enforce"),
        fs_allow,
        fs_deny,
        net_allow,
        net_default: owned("deny"),
    }
}

/// The `meta` record of a proxied session: the server's identity and launch
/// command (`command` followed by `args`), an unknown client, and the
/// sandbox snapshot of the permissions granted when the session began.
pub fn build_session_meta(
    id: TraceId,
    started_at: WallTime,
    server: &McpServer,
    granted: &Vec<PersistedPermission>,
    app: AppInfo,
) -> (m: SessionMeta)
    ensures
        m.id == id,
        m.started_at == started_at,
        m.ended_at is None,
        m.started_mono_ns == 0,
        m.app == app,
        m.server.id@ == server.id@,
        m.server.name@ == server.name@,
        m.server.version@ == match server.version { Some(v) => v@, None => "unknown"@ },
        m.server.transport@ == crate::db::models::transport_name(server.transport),
        views(m.server.command@) == seq![server.command@] + views(server.args@),
        m.server.capabilities@.len() == 0,
        m.client.name@ == "unknown"@,
        m.client.version@ == "0"@,
        views(m.sandbox.fs_allow@) == fs_allow_spec(granted@),
        views(m.sandbox.net_allow@) == net_allow_spec(granted@),
        m.sandbox.mode@ == "enforce"@,
        m.redactions is None,
{
    let mut command: Vec<String> = Vec::new();
    command.push(server.command.clone());
    let mut i: usize = 0;
    while i < server.args.len()
        invariant
            i <= server.args.len(),
            views(command@) == seq![server.command@] + views(server.args@.take(i as int)),
        decreases server.args.len() - i,
    {
        let a = server.args[i].clone();
        let ghost prev = command@;
        command.push(a);
        assert(views(command@) =~= views(prev).push(server.args@[i as int]@));
        assert(views(server.args@.take(i + 1)) =~= views(server.args@.take(i as int)).push(server.args@[i as int]@));
        i = i + 1;
        assert(views(command@) =~= seq![server.command@] + views(server.args@.take(i as int)));
    }
    assert(server.args@.take(server.args.len() as int) == server.args@);
    let version = match &server.version {
        Some(v) => v.clone(),
        None => owned("unknown"),
    };
    SessionMeta {
        id,
        started_at,
        ended_at: None,
        started_mono_ns: 0,
        app,
        server: ServerInfo {
            id: server.id.clone(),
            name: server.name.clone(),
            version,
            transport: owned(server.transport.as_str()),
            command,
            capabilities: Vec::new(),
        },
        client: ClientInfo { name: owned("unknown"), version: owned("0") },
        sandbox: build_sandbox_snapshot(granted),
        redactions: None,
    }
}

// ---------------------------------------------------------------------------
// Small encoders
// ---------------------------------------------------------------------------

/// The kebab-case tag of an action kind (`fs-read`, `fs-write`, …).
pub open spec fn kind_tag_spec(kind: ActionKind) -> Seq<char> {
    match kind {
        ActionKind::FsRead => "fs-read"@,
        ActionKind::FsWrite => "fs-write"@,
        ActionKind::BrowserOpen => "browser-open"@,
        ActionKind::HttpFetch => "http-fetch"@,
        ActionKind::TerminalExec => "terminal-exec"@,
        ActionKind::MemoryStore => "memory-store"@,
        ActionKind::Search => "search"@,
        ActionKind::ToolCall => "tool-call"@,
        ActionKind::Other => "other"@,
    }
}

/// The tag that a traced action inherits from its live action's kind.
pub fn action_kind_tag(kind: ActionKind) -> (t: String)
    ensures
        t@ == kind_tag_spec(kind),
{
    owned(match kind {
        ActionKind::FsRead => "fs-read",
        ActionKind::FsWrite => "fs-write",
        ActionKind::BrowserOpen => "browser-open",
        ActionKind::HttpFetch => "http-fetch",
        ActionKind::TerminalExec => "terminal-exec",
        ActionKind::MemoryStore => "memory-store",
        ActionKind::Search => "search",
        ActionKind::ToolCall => "tool-call",
        ActionKind::Other => "other",
    })
}

/// The key under which a request id is tracked: a string id as it is, any
/// other id as its compact JSON text.
pub open spec fn rpc_key_spec(v: Json) -> Seq<char> {
    match v {
        Json::Str(s) => s,
        _ => canonical(v),
    }
}

pub fn rpc_id_key(v: &JsonValue) -> (k: String)
    ensures
        k@ == rpc_key_spec(v@),
{
    match v {
        JsonValue::Str(s) => s.clone(),
        _ => canonical_json(v),
    }
}

// ---------------------------------------------------------------------------
// Integer codes
// ---------------------------------------------------------------------------

pub open spec fn is_digit(c: char) -> bool {
    '0' <= c && c <= '9'
}

/// The value of a run of decimal digits.
pub open spec fn digits_value(s: Seq<char>) -> int
    decreases s.len(),
{
    if s.len() == 0 {
        0
    } else {
        digits_value(s.drop_last()) * 10 + (s.last() as u32 - '0' as u32)
    }
}

/// The integer a number's text denotes, when it is an optional `-` followed
/// by digits and fits in an `i64` (what `serde_json::Value::as_i64` returns
/// for an integer).
pub open spec fn all_digits(s: Seq<char>) -> bool {
    forall|i: int| 0 <= i < s.len() ==> is_digit(#[trigger] s[i])
}

pub open spec fn number_as_i64_spec(text: Seq<char>) -> Option<int> {
    let neg = text.len() > 0 && text[0] == '-';
    let ds = if neg { text.drop_first() } else { text };
    if ds.len() == 0 || !all_digits(ds) {
        None
    } else {
        let v = if neg { -digits_value(ds) } else { digits_value(ds) };
        if i64::MIN <= v && v <= i64::MAX {
            Some(v)
        } else {
            None
        }
    }
}

proof fn lemma_digits_nonneg(s: Seq<char>)
    requires
        forall|i: int| 0 <= i < s.len() ==> is_digit(#[trigger] s[i]),
    ensures
        digits_value(s) >= 0,
    decreases s.len(),
{
    if s.len() > 0 {
        lemma_digits_nonneg(s.drop_last());
    }
}

proof fn lemma_digits_grow(s: Seq<char>, i: int)
    requires
        0 <= i <= s.len(),
        forall|k: int| 0 <= k < s.len() ==> is_digit(#[trigger] s[k]),
    ensures
        digits_value(s.take(i)) <= digits_value(s),
    decreases s.len() - i,
{
    if i < s.len() {
        lemma_digits_grow(s, i + 1);
        assert(s.take(i + 1).drop_last() == s.take(i));
        lemma_digits_nonneg(s.take(i));
    } else {
        assert(s.take(i) == s);
    }
}

/// The integer a number's text denotes, when it is one that fits in `i64`.
pub fn number_as_i64(text: &str) -> (r: Option<i64>)
    ensures
        match r { Some(n) => Some(n as int), None => None } == number_as_i64_spec(text@),
{
    let cs = chars_of(text);
    let neg = cs.len() > 0 && cs[0] == '-';
    let start: usize = if neg { 1 } else { 0 };
    let ghost ds = if neg { cs@.drop_first() } else { cs@ };
    if start == cs.len() {
        return None;
    }
    // Accumulate the magnitude, stopping as soon as it exceeds 2^63.
    let limit: u64 = 9223372036854775808;
    let mut acc: u64 = 0;
    let mut i: usize = start;
    let mut over = false;
    while i < cs.len()
        invariant
            limit == 9223372036854775808u64,
            start <= i <= cs.len(),
            start == (if neg { 1usize } else { 0usize }),
            ds == (if neg { cs@.drop_first() } else { cs@ }),
            cs@ == text@,
            neg == (cs@.len() > 0 && cs@[0] == '-'),
            forall|k: int| 0 <= k < i - start ==> is_digit(#[trigger] ds[k]),
            !over ==> acc as int == digits_value(ds.take(i - start)) && acc <= limit,
            over ==> digits_value(ds.take(i - start)) > limit,
        decreases cs.len() - i,
    {
        let c = cs[i];
        assert(ds[i - start] == c);
        if !('0' <= c && c <= '9') {
            assert(!is_digit(ds[i - start]));
            assert(ds.len() > 0);
            assert(!all_digits(ds));
            return None;
        }
        let d = (c as u32 - '0' as u32) as u64;
        assert(d < 10);
        assert(ds.take(i - start + 1).drop_last() == ds.take(i - start));
        if !over {
            if acc > (limit - d) / 10 {
                over = true;
                assert(digits_value(ds.take(i - start + 1)) > limit) by (nonlinear_arith)
                    requires
                        digits_value(ds.take(i - start + 1)) == acc * 10 + d,
                        acc > (limit - d) / 10,
                        d < 10,
                ;
            } else {
                assert(acc * 10 + d <= limit) by (nonlinear_arith)
                    requires
                        acc <= (limit - d) / 10,
                        d < 10,
                ;
                acc = acc * 10 + d;
            }
        } else {
            proof {
                let t = ds.take(i - start);
                lemma_digits_nonneg(t);
                assert(digits_value(ds.take(i - start + 1)) == digits_value(t) * 10 + d);
            }
        }
        i = i + 1;
    }
    assert(ds.take(ds.len() as int) == ds);
    if over {
        return None;
    }
    if neg {
        if acc == limit {
            Some(i64::MIN)
        } else {
            Some(-(acc as i64))
        }
    } else {
        if acc >= limit {
            None
        } else {
            Some(acc as i64)
        }
    }
}

// ---------------------------------------------------------------------------
// Session counters
// ---------------------------------------------------------------------------

pub open spec fn sat_inc(n: u64) -> u64 {
    if n == u64::MAX { n } else { (n + 1) as u64 }
}

/// Running tally of the traced actions of a session, for its final stats.
pub struct SessionCounters {
    pub total: u64,
    pub ok: u64,
    pub denied: u64,
    pub error: u64,
    /// Durations of the actions that have one, in nanoseconds.
    pub durations_ns: Vec<u64>,
}

/// The model of [`SessionCounters`].
pub struct CountersView {
    pub total: u64,
    pub ok: u64,
    pub denied: u64,
    pub error: u64,
    pub durations_ns: Seq<u64>,
}

impl View for SessionCounters {
    type V = CountersView;

    open spec fn view(&self) -> CountersView {
        CountersView {
            total: self.total,
            ok: self.ok,
            denied: self.denied,
            error: self.error,
            durations_ns: self.durations_ns@,
        }
    }
}

/// The tally after one more traced action with this outcome and duration:
/// the total and the outcome's own count go up by one (stopping at
/// `u64::MAX`), and a duration that is present is appended.
pub open spec fn recorded(c: CountersView, outcome: Outcome, duration_ns: Option<u64>) -> CountersView {
    CountersView {
        total: sat_inc(c.total),
        ok: if outcome == Outcome::Success { sat_inc(c.ok) } else { c.ok },
        denied: if outcome == Outcome::Denied { sat_inc(c.denied) } else { c.denied },
        error: if outcome == Outcome::Error { sat_inc(c.error) } else { c.error },
        durations_ns: match duration_ns {
            Some(d) => c.durations_ns.push(d),
            None => c.durations_ns,
        },
    }
}

impl SessionCounters {
    pub fn new() -> (c: Self)
        ensures
            c@ == (CountersView { total: 0, ok: 0, denied: 0, error: 0, durations_ns: Seq::empty() }),
    {
        SessionCounters { total: 0, ok: 0, denied: 0, error: 0, durations_ns: Vec::new() }
    }

    /// Counts one traced action. Counters stop at `u64::MAX`.
    pub fn record(&mut self, outcome: Outcome, duration_ns: Option<u64>)
        ensures
            final(self)@ == recorded(old(self)@, outcome, duration_ns),
    {
        self.total = if self.total == u64::MAX { self.total } else { self.total + 1 };
        match outcome {
            Outcome::Success => {
                self.ok = if self.ok == u64::MAX { self.ok } else { self.ok + 1 };
            },
            Outcome::Denied => {
                self.denied = if self.denied == u64::MAX { self.denied } else { self.denied + 1 };
            },
            Outcome::Error => {
                self.error = if self.error == u64::MAX { self.error } else { self.error + 1 };
            },
            _ => {},
        }
        match duration_ns {
            Some(d) => self.durations_ns.push(d),
            None => {},
        }
    }

    /// The session stats: counts by outcome (`denied`, `error`, `ok`, those
    /// that are non-zero, in key order), by kind (one `session_event` and
    /// the rest as `tool_call`), the session's duration, and the two
    /// duration statistics computed by the caller from `durations_ns`.
    pub fn to_stats(&self, duration_ms: u64, avg_action_ms_bits: u64, p95_action_ms_bits: u64) -> (s: Stats)
        ensures
            s.total_actions == self.total,
            s.denied_count == self.denied,
            s.error_count == self.error,
            s.duration_ms == duration_ms,
            s.avg_action_ms_bits == avg_action_ms_bits,
            s.p95_action_ms_bits == p95_action_ms_bits,
            s.bytes_in == 0 && s.bytes_out == 0,
            s.by_outcome@.map_values(|e: (String, u64)| (e.0@, e.1)) == (if self.denied > 0 {
                seq![("denied"@, self.denied)]
            } else {
                Seq::empty()
            }) + (if self.error > 0 { seq![("error"@, self.error)] } else { Seq::empty() }) + (
            if self.ok > 0 { seq![("ok"@, self.ok)] } else { Seq::empty() }),
            s.by_kind@.map_values(|e: (String, u64)| (e.0@, e.1)) == (if self.total > 0 {
                seq![("session_event"@, 1u64)]
            } else {
                Seq::empty()
            }) + (if self.total > 1 { seq![("tool_call"@, (self.total - 1) as u64)] } else { Seq::empty() }),
    {
        let mut by_outcome: Vec<(String, u64)> = Vec::new();
        if self.denied > 0 {
            by_outcome.push((owned("denied"), self.denied));
        }
        if self.error > 0 {
            by_outcome.push((owned("error"), self.error));
        }
        if self.ok > 0 {
            by_outcome.push((owned("ok"), self.ok));
        }
        let mut by_kind: Vec<(String, u64)> = Vec::new();
        if self.total > 0 {
            by_kind.push((owned("session_event"), 1));
            if self.total > 1 {
                by_kind.push((owned("tool_call"), self.total - 1));
            }
        }
        let s = Stats {
            total_actions: self.total,
            by_outcome,
            by_kind,
            denied_count: self.denied,
            error_count: self.error,
            duration_ms,
            avg_action_ms_bits,
            p95_action_ms_bits,
            bytes_in: 0,
            bytes_out: 0,
        };
        assert(s.by_outcome@.map_values(|e: (String, u64)| (e.0@, e.1)) =~= (if self.denied > 0 {
            seq![("denied"@, self.denied)]
        } else {
            Seq::empty()
        }) + (if self.error > 0 { seq![("error"@, self.error)] } else { Seq::empty() }) + (if self.ok
            > 0 { seq![("ok"@, self.ok)] } else { Seq::empty() }));
        assert(s.by_kind@.map_values(|e: (String, u64)| (e.0@, e.1)) =~= (if self.total > 0 {
            seq![("session_event"@, 1u64)]
        } else {
            Seq::empty()
        }) + (if self.total > 1 { seq![("tool_call"@, (self.total - 1) as u64)] } else { Seq::empty() }));
        s
    }
}

} // verus!
