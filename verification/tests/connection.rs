use mcp_hub_lib::db::permissions::PersistedPermission;
use mcp_hub_lib::json::JsonValue;
use mcp_hub_lib::mcp::agent::{ActionKind, ActionStatus};
use mcp_hub_lib::mcp::connection::{denial_response, elapsed_ns, framed, ClientStep, ProxySession};
use mcp_hub_lib::security::approvals::ApprovalDecision;
use mcp_hub_lib::session::types::{Kind, Outcome, WallTime};

fn wall() -> WallTime {
    WallTime { secs: 1_700_000_000, nanos: 0 }
}

fn grant(scope: &str) -> PersistedPermission {
    PersistedPermission {
        id: 1,
        server_id: "srv".to_string(),
        scope: scope.to_string(),
        target: None,
        reason: None,
        granted: true,
        granted_at: None,
    }
}

fn client(s: &mut ProxySession, line: &str, mono: u64) -> ClientStep {
    s.on_client_line(line.to_string(), wall(), mono)
}

const READ: &str = r#"{"jsonrpc":"2.0","id":1,"method":"tools/call","params":{"name":"read_file","arguments":{"path":"/etc/hosts"}}}"#;

#[test]
fn unclassified_lines_are_forwarded_verbatim() {
    let mut s = ProxySession::new("srv".to_string(), Vec::new(), true);
    match client(&mut s, "not json at all", 0) {
        ClientStep::Done(out) => {
            assert_eq!(out.to_server.as_deref(), Some("not json at all\n"));
            assert!(out.publish.is_none() && out.trace.is_none() && out.to_client.is_none());
        }
        ClientStep::AskUser { .. } => panic!("no approval expected"),
    }
    assert_eq!(s.pending_count(), 0);
}

#[test]
fn granted_request_is_forwarded_and_tracked_until_its_response() {
    let mut s = ProxySession::new("srv".to_string(), vec![grant("fs.read")], true);
    let start = s.start(wall()).expect("start record");
    assert_eq!(start.seq, 0);
    assert_eq!(start.kind, Kind::SessionEvent);
    match client(&mut s, READ, 1_000) {
        ClientStep::Done(out) => {
            assert_eq!(out.to_server.as_deref(), Some(format!("{}\n", READ).as_str()));
            let a = out.publish.expect("published");
            assert!(matches!(a.status, ActionStatus::Pending));
            assert!(matches!(a.kind, ActionKind::FsRead));
            assert!(out.trace.is_none());
        }
        ClientStep::AskUser { .. } => panic!("scope was granted"),
    }
    assert_eq!(s.pending_count(), 1);

    let resp = r#"{"jsonrpc":"2.0","id":1,"result":{"content":"127.0.0.1 localhost"}}"#;
    let out = s.on_server_line(resp, wall(), 5_001_000);
    assert_eq!(out.to_client.as_deref(), Some(format!("{}\n", resp).as_str()));
    let a = out.publish.expect("completed");
    assert!(matches!(a.status, ActionStatus::Success));
    assert_eq!(a.latency_ms, Some(5));
    let t = out.trace.expect("traced");
    assert_eq!(t.seq, 1);
    assert_eq!(t.outcome, Outcome::Success);
    assert_eq!(t.duration_ns, Some(5_000_000));
    assert_eq!(t.cause_id, Some(start.id));
    assert_eq!(t.tags, vec!["fs-read"]);
    assert!(t.payload_hash.starts_with("sha256:"));
    assert_eq!(s.pending_count(), 0);
    assert_eq!(s.counters().total, 1);
    assert_eq!(s.counters().ok, 1);

    // The same response again matches nothing.
    let again = s.on_server_line(resp, wall(), 6_000_000);
    assert!(again.publish.is_none() && again.trace.is_none());
    assert_eq!(again.to_client.as_deref(), Some(format!("{}\n", resp).as_str()));
}

#[test]
fn missing_scope_asks_and_deny_answers_the_client() {
    let mut s = ProxySession::new("srv".to_string(), Vec::new(), true);
    let scope = match client(&mut s, READ, 10) {
        ClientStep::AskUser { action, scope } => {
            assert!(matches!(action.status, ActionStatus::Pending));
            scope
        }
        ClientStep::Done(_) => panic!("approval expected"),
    };
    assert_eq!(scope, "fs.read");
    assert!(s.is_awaiting_approval());

    let (out, persist) = s.on_approval(Some(ApprovalDecision::Deny), 2_010);
    assert!(persist.is_none());
    assert!(out.to_server.is_none());
    let a = out.publish.expect("published");
    assert!(matches!(a.status, ActionStatus::Denied));
    assert_eq!(
        a.denied_reason.as_deref(),
        Some("User denied read_file via runtime prompt (required scope: fs.read)")
    );
    let reply = out.to_client.expect("error response");
    let value: serde_json::Value = serde_json::from_str(reply.trim_end()).unwrap();
    let expected: serde_json::Value = serde_json::from_str(
        r#"{"jsonrpc":"2.0","id":1,"error":{"code":-32603,"message":"Permission denied by MCP Hub","data":{"scope":"fs.read","reason":"User denied read_file via runtime prompt"}}}"#,
    )
    .unwrap();
    assert_eq!(value, expected);
    assert_eq!(reply, format!("{}\n", serde_json::to_string(&expected).unwrap()));
    let t = out.trace.expect("traced");
    assert_eq!(t.outcome, Outcome::Denied);
    assert_eq!(t.duration_ns, Some(2_000));
    assert_eq!(t.tags, vec!["fs-read", "denied"]);
    let d = t.decision.expect("decision");
    assert_eq!(d.rule_id, "fs.read");
    assert!(d.prompted);
    assert_eq!(t.error.expect("error").code, "SANDBOX_DENY");
    assert!(!s.is_awaiting_approval());
    assert_eq!(s.pending_count(), 0);
    assert_eq!(s.counters().denied, 1);
}

#[test]
fn closed_prompt_is_a_denial() {
    let mut s = ProxySession::new("srv".to_string(), Vec::new(), false);
    let _ = client(&mut s, READ, 0);
    let (out, _) = s.on_approval(None, 0);
    let a = out.publish.expect("published");
    assert_eq!(
        a.denied_reason.as_deref(),
        Some("Approval prompt closed without response (required scope: fs.read)")
    );
    assert!(out.trace.is_none(), "untraced sessions produce no records");
}

#[test]
fn always_allow_forwards_and_asks_to_persist() {
    let mut s = ProxySession::new("srv".to_string(), Vec::new(), true);
    let _ = client(&mut s, READ, 0);
    let (out, persist) = s.on_approval(Some(ApprovalDecision::AllowSession), 100);
    let p = persist.expect("persist");
    assert_eq!(p.scope, "fs.read");
    assert!(p.target.is_none());
    assert_eq!(p.reason.as_deref(), Some("User granted via runtime prompt (read_file)"));
    assert_eq!(out.to_server.as_deref(), Some(format!("{}\n", READ).as_str()));
    assert_eq!(s.pending_count(), 1);

    s.set_granted(vec![grant("fs.read")]);
    let second = READ.replace("\"id\":1", "\"id\":2");
    match client(&mut s, &second, 200) {
        ClientStep::Done(out) => assert!(out.to_server.is_some()),
        ClientStep::AskUser { .. } => panic!("scope now granted"),
    }
    assert_eq!(s.pending_count(), 2);
}

#[test]
fn allow_once_forwards_without_persisting() {
    let mut s = ProxySession::new("srv".to_string(), Vec::new(), true);
    let _ = client(&mut s, READ, 0);
    let (out, persist) = s.on_approval(Some(ApprovalDecision::AllowOnce), 100);
    assert!(persist.is_none());
    assert!(out.to_server.is_some());
    assert!(s.granted().is_empty());
    let resp = r#"{"jsonrpc":"2.0","id":1,"result":{"content":"x"}}"#;
    let done = s.on_server_line(resp, wall(), 900);
    let t = done.trace.expect("traced");
    assert_eq!(t.outcome, Outcome::Success);
    let d = t.decision.expect("the user's verdict is recorded");
    assert_eq!(d.verdict, "allow");
    assert_eq!(d.rule_id, "fs.read");
    assert_eq!(d.mode, "enforce");
    assert!(d.prompted);
    assert_eq!(d.prompt_resolution.as_deref(), Some("allow_once"));
    assert_eq!(d.reason, "User allowed read_file once via runtime prompt");
}

#[test]
fn always_allow_is_recorded_on_the_response_trace_even_for_errors() {
    let mut s = ProxySession::new("srv".to_string(), Vec::new(), true);
    let _ = client(&mut s, READ, 0);
    let _ = s.on_approval(Some(ApprovalDecision::AllowSession), 100);
    let resp = r#"{"jsonrpc":"2.0","id":1,"error":{"code":-1,"message":"nope"}}"#;
    let done = s.on_server_line(resp, wall(), 900);
    let t = done.trace.expect("traced");
    assert_eq!(t.outcome, Outcome::Error);
    let d = t.decision.expect("the user's verdict is recorded");
    assert_eq!(d.prompt_resolution.as_deref(), Some("allow_session"));
    assert_eq!(d.reason, "User granted via runtime prompt (read_file)");
}

#[test]
fn notifications_pass_through_untraced() {
    let mut s = ProxySession::new("srv".to_string(), Vec::new(), true);
    let line = r#"{"jsonrpc":"2.0","method":"notifications/initialized"}"#;
    match client(&mut s, line, 0) {
        ClientStep::Done(out) => {
            assert!(out.trace.is_none() && out.publish.is_none());
            assert_eq!(out.to_server.as_deref(), Some("{\"jsonrpc\":\"2.0\",\"method\":\"notifications/initialized\"}\n"));
        }
        ClientStep::AskUser { .. } => panic!("no scope needed"),
    }
    assert_eq!(s.counters().total, 0);
}

#[test]
fn tool_call_without_id_is_traced_at_once() {
    let mut s = ProxySession::new("srv".to_string(), Vec::new(), true);
    let line = r#"{"jsonrpc":"2.0","method":"tools/call","params":{"name":"remember","arguments":{}}}"#;
    match client(&mut s, line, 0) {
        ClientStep::Done(out) => {
            let t = out.trace.expect("traced at once");
            assert_eq!(t.outcome, Outcome::Success);
            assert_eq!(t.duration_ns, Some(0));
            assert_eq!(t.tool.as_deref(), Some("remember"));
        }
        ClientStep::AskUser { .. } => panic!("no scope needed"),
    }
    assert_eq!(s.pending_count(), 0);
    assert_eq!(s.counters().total, 1);
}

#[test]
fn error_responses_fail_the_action() {
    let mut s = ProxySession::new("srv".to_string(), vec![grant("net.outbound")], true);
    let req = r#"{"jsonrpc":"2.0","id":"r-9","method":"tools/call","params":{"name":"fetch","arguments":{"url":"https://x"}}}"#;
    let _ = client(&mut s, req, 0);
    let resp = r#"{"jsonrpc":"2.0","id":"r-9","error":{"code":-32000,"message":"boom","data":{"why":1}}}"#;
    let out = s.on_server_line(resp, wall(), 3_000_000);
    let a = out.publish.expect("completed");
    assert!(matches!(a.status, ActionStatus::Failed));
    assert_eq!(a.error.as_deref(), Some("boom"));
    let t = out.trace.expect("traced");
    assert_eq!(t.outcome, Outcome::Error);
    let e = t.error.expect("error");
    assert_eq!(e.code, "-32000");
    assert_eq!(e.message, "boom");
    assert_eq!(e.source, "tool");
    assert!(e.data.is_some());
    assert_eq!(s.counters().error, 1);
}

#[test]
fn odd_error_codes_and_messages_fall_back() {
    let mut s = ProxySession::new("srv".to_string(), Vec::new(), true);
    let req = r#"{"jsonrpc":"2.0","id":5,"method":"tools/call","params":{"name":"weird"}}"#;
    let _ = client(&mut s, req, 0);
    let resp = r#"{"jsonrpc":"2.0","id":5,"error":{"code":1.5}}"#;
    let out = s.on_server_line(resp, wall(), 0);
    let e = out.trace.expect("traced").error.expect("error");
    assert_eq!(e.code, "MCP_ERROR");
    assert_eq!(e.message, "server error");
}

#[test]
fn server_requests_are_not_responses() {
    let mut s = ProxySession::new("srv".to_string(), Vec::new(), true);
    let req = r#"{"jsonrpc":"2.0","id":1,"method":"tools/call","params":{"name":"weird"}}"#;
    let _ = client(&mut s, req, 0);
    let from_server = r#"{"jsonrpc":"2.0","id":1,"method":"sampling/createMessage"}"#;
    let out = s.on_server_line(from_server, wall(), 0);
    assert!(out.publish.is_none());
    assert_eq!(s.pending_count(), 1);
}

#[test]
fn small_helpers() {
    assert_eq!(framed("x"), "x\n");
    assert_eq!(elapsed_ns(10, 25), 15);
    assert_eq!(elapsed_ns(25, 10), 0);
    let r = denial_response(&JsonValue::Str("q\"1".to_string()), "terminal", "no");
    assert_eq!(
        r,
        "{\"error\":{\"code\":-32603,\"data\":{\"reason\":\"no\",\"scope\":\"terminal\"},\"message\":\"Permission denied by MCP Hub\"},\"id\":\"q\\\"1\",\"jsonrpc\":\"2.0\"}\n"
    );
}

#[test]
fn undecodable_request_line_is_forwarded_unclassified_only_when_it_is_not_json() {
    // A tools/call line that decodes: held for approval, nothing forwarded.
    let mut s = ProxySession::new("srv".to_string(), Vec::new(), true);
    let write = r#"  {"jsonrpc":"2.0","id":5,"method":"tools/call","params":{"name":"write_file","arguments":{"path":"/etc/passwd"}}}"#;
    match client(&mut s, write, 0) {
        ClientStep::AskUser { scope, .. } => assert_eq!(scope, "fs.write"),
        ClientStep::Done(_) => panic!("the session decodes the line itself and must ask"),
    }
    // A line that is not JSON goes through as it is.
    let mut t = ProxySession::new("srv".to_string(), Vec::new(), true);
    match client(&mut t, "{not json", 0) {
        ClientStep::Done(out) => assert_eq!(out.to_server.as_deref(), Some("{not json\n")),
        ClientStep::AskUser { .. } => panic!("nothing to classify"),
    }
}
