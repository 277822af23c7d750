use mcp_hub_lib::db::models::{McpServer, ServerStatus, Transport};
use mcp_hub_lib::db::permissions::PersistedPermission;
use mcp_hub_lib::json::{JsonMember, JsonValue};
use mcp_hub_lib::mcp::agent::ActionKind;
use mcp_hub_lib::mcp::proxy::{
    action_kind_tag, build_sandbox_snapshot, build_session_meta, enforce_permission, number_as_i64,
    resolve_decision, rpc_id_key, Decision, Resolution, SessionCounters,
};
use mcp_hub_lib::security::approvals::ApprovalDecision;
use mcp_hub_lib::session::types::{AppInfo, Outcome, TraceId, WallTime};

fn perm(scope: &str, target: Option<&str>, granted: bool) -> PersistedPermission {
    PersistedPermission {
        id: 1,
        server_id: "srv".to_string(),
        scope: scope.to_string(),
        target: target.map(String::from),
        reason: None,
        granted,
        granted_at: None,
    }
}

#[test]
fn scopes_follow_the_action_kind() {
    let none: Vec<PersistedPermission> = Vec::new();
    assert!(matches!(enforce_permission(ActionKind::FsRead, None, &none), Decision::AskUser { scope: "fs.read" }));
    assert!(matches!(enforce_permission(ActionKind::FsWrite, None, &none), Decision::AskUser { scope: "fs.write" }));
    assert!(matches!(enforce_permission(ActionKind::Search, None, &none), Decision::AskUser { scope: "internet" }));
    assert!(matches!(enforce_permission(ActionKind::TerminalExec, None, &none), Decision::AskUser { scope: "terminal" }));
    assert!(matches!(enforce_permission(ActionKind::MemoryStore, None, &none), Decision::Allow));
    assert!(matches!(enforce_permission(ActionKind::ToolCall, None, &none), Decision::Allow));
}

#[test]
fn net_outbound_grants_internet_and_revoked_grants_do_not_count() {
    let granted = vec![perm("net.outbound", None, true), perm("fs.read", None, false)];
    assert!(matches!(enforce_permission(ActionKind::HttpFetch, None, &granted), Decision::Allow));
    assert!(matches!(enforce_permission(ActionKind::FsRead, None, &granted), Decision::AskUser { .. }));
}

#[test]
fn approval_answers_resolve() {
    match resolve_decision(Some(ApprovalDecision::AllowOnce), "fs.read", "t") {
        Resolution::Proceed { persist: None, decision } => {
            assert_eq!(decision.verdict, "allow");
            assert_eq!(decision.rule_id, "fs.read");
            assert_eq!(decision.reason, "User allowed t once via runtime prompt");
            assert_eq!(decision.mode, "enforce");
            assert!(decision.prompted);
            assert_eq!(decision.prompt_resolution.as_deref(), Some("allow_once"));
        }
        _ => panic!("expected to proceed without a grant"),
    }
    match resolve_decision(Some(ApprovalDecision::AllowSession), "internet", "fetch") {
        Resolution::Proceed { persist: Some(p), decision } => {
            assert_eq!(p.scope, "internet");
            assert_eq!(p.reason.as_deref(), Some("User granted via runtime prompt (fetch)"));
            assert_eq!(decision.verdict, "allow");
            assert!(decision.prompted);
            assert_eq!(decision.prompt_resolution.as_deref(), Some("allow_session"));
        }
        _ => panic!("expected a persisted grant"),
    }
    match resolve_decision(Some(ApprovalDecision::Deny), "terminal", "bash") {
        Resolution::Denied(d) => {
            assert_eq!(d.scope, "terminal");
            assert_eq!(d.reason, "User denied bash via runtime prompt");
        }
        _ => panic!("expected a denial"),
    }
    match resolve_decision(None, "terminal", "bash") {
        Resolution::Denied(d) => assert_eq!(d.reason, "Approval prompt closed without response"),
        _ => panic!("expected a denial"),
    }
}

#[test]
fn kind_tags_are_kebab_case() {
    assert_eq!(action_kind_tag(ActionKind::FsRead), "fs-read");
    assert_eq!(action_kind_tag(ActionKind::TerminalExec), "terminal-exec");
    assert_eq!(action_kind_tag(ActionKind::ToolCall), "tool-call");
    assert_eq!(action_kind_tag(ActionKind::Other), "other");
}

#[test]
fn request_ids_key_as_text() {
    assert_eq!(rpc_id_key(&JsonValue::Str("abc".to_string())), "abc");
    assert_eq!(rpc_id_key(&JsonValue::Number("17".to_string())), "17");
    assert_eq!(rpc_id_key(&JsonValue::Null), "null");
    let obj = JsonValue::Object(vec![
        JsonMember { key: "b".to_string(), value: JsonValue::Bool(true) },
        JsonMember { key: "a".to_string(), value: JsonValue::Str("x".to_string()) },
    ]);
    assert_eq!(rpc_id_key(&obj), r#"{"a":"x","b":true}"#);
}

#[test]
fn integer_texts_within_i64() {
    assert_eq!(number_as_i64("-32603"), Some(-32603));
    assert_eq!(number_as_i64("9223372036854775807"), Some(i64::MAX));
    assert_eq!(number_as_i64("-9223372036854775808"), Some(i64::MIN));
    assert_eq!(number_as_i64("9223372036854775808"), None);
    assert_eq!(number_as_i64("1.5"), None);
    assert_eq!(number_as_i64("1e3"), None);
    assert_eq!(number_as_i64("-"), None);
    assert_eq!(number_as_i64(""), None);
}

#[test]
fn counters_tally_outcomes_and_build_stats() {
    let mut c = SessionCounters::new();
    c.record(Outcome::Success, Some(1_000_000));
    c.record(Outcome::Denied, Some(2_000_000));
    c.record(Outcome::Error, None);
    c.record(Outcome::Timeout, Some(3));
    assert_eq!((c.total, c.ok, c.denied, c.error), (4, 1, 1, 1));
    assert_eq!(c.durations_ns, vec![1_000_000, 2_000_000, 3]);
    let st = c.to_stats(42, 1.5f64.to_bits(), 2.0f64.to_bits());
    assert_eq!(st.total_actions, 4);
    assert_eq!(
        st.by_outcome,
        vec![("denied".to_string(), 1), ("error".to_string(), 1), ("ok".to_string(), 1)]
    );
    assert_eq!(st.by_kind, vec![("session_event".to_string(), 1), ("tool_call".to_string(), 3)]);
    assert_eq!(st.duration_ms, 42);
    assert_eq!(f64::from_bits(st.avg_action_ms_bits), 1.5);
    let empty = SessionCounters::new().to_stats(0, 0, 0);
    assert!(empty.by_outcome.is_empty() && empty.by_kind.is_empty());
}

#[test]
fn snapshot_lists_granted_fs_and_network_targets() {
    let granted = vec![
        perm("fs.read", Some("/a"), true),
        perm("fs.write", None, true),
        perm("internet", None, true),
        perm("net.outbound", Some("h.example"), true),
        perm("fs.write", Some("/revoked"), false),
        perm("terminal", Some("x"), true),
    ];
    let c = build_sandbox_snapshot(&granted);
    assert_eq!(c.mode, "enforce");
    assert_eq!(c.fs_allow, vec!["/a"]);
    assert_eq!(c.net_allow, vec!["*", "h.example"]);
    assert_eq!(c.fs_deny, vec!["~/.ssh", "~/.aws", "/etc/"]);
    assert_eq!(c.net_default, "deny");
}

#[test]
fn session_meta_describes_the_server() {
    let server = McpServer {
        id: "srv".to_string(),
        name: "Files".to_string(),
        description: String::new(),
        command: "npx".to_string(),
        args: vec!["pkg".to_string()],
        env: Vec::new(),
        transport: Transport::Sse,
        status: ServerStatus::Running,
        installed_at: WallTime { secs: 0, nanos: 0 },
        updated_at: WallTime { secs: 0, nanos: 0 },
        version: None,
        source: None,
        icon_url: None,
    };
    let app = AppInfo { name: "mcp-hub".to_string(), version: "0.1.0".to_string(), build: "dev".to_string(), os: "linux-x86_64".to_string() };
    let m = build_session_meta(TraceId(5), WallTime { secs: 9, nanos: 1 }, &server, &Vec::new(), app);
    assert_eq!(m.id, TraceId(5));
    assert!(m.ended_at.is_none());
    assert_eq!(m.server.version, "unknown");
    assert_eq!(m.server.transport, "sse");
    assert_eq!(m.server.command, vec!["npx", "pkg"]);
    assert_eq!(m.client.name, "unknown");
    assert_eq!(m.client.version, "0");
}
