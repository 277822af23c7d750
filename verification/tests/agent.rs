use mcp_hub_lib::json_decode::decode;
use mcp_hub_lib::json::JsonValue;
use mcp_hub_lib::mcp::agent::{
    classify_jsonrpc, classify_sandbox_denial, classify_tool, truncate_for_target, ActionKind,
    ActionSink, ActionStatus,
};

fn parse(line: &str) -> Option<JsonValue> {
    decode(line)
}

fn classify(line: &str, server: &str) -> Option<mcp_hub_lib::mcp::agent::AgentAction> {
    classify_jsonrpc(line, server)
}

#[test]
fn classifies_read_file() {
    let line = r#"{"jsonrpc":"2.0","id":1,"method":"tools/call","params":{"name":"read_file","arguments":{"path":"/etc/hosts"}}}"#;
    let a = classify(line, "srv").expect("classified");
    assert!(matches!(a.kind, ActionKind::FsRead));
    assert_eq!(a.tool_name, "read_file");
    assert_eq!(a.target.as_deref(), Some("/etc/hosts"));
}

#[test]
fn classifies_fetch_url() {
    let line = r#"{"jsonrpc":"2.0","id":7,"method":"tools/call","params":{"name":"fetch","arguments":{"url":"https://api.github.com"}}}"#;
    let a = classify(line, "srv").expect("classified");
    assert!(matches!(a.kind, ActionKind::HttpFetch));
    assert_eq!(a.target.as_deref(), Some("https://api.github.com"));
}

#[test]
fn ignores_non_jsonrpc() {
    assert!(classify("plain log line", "srv").is_none());
    assert!(classify("", "srv").is_none());
    assert!(classify(r#"{"not":"jsonrpc"}"#, "srv").is_none());
}

#[test]
fn ignores_uninteresting_methods() {
    let line = r#"{"jsonrpc":"2.0","id":1,"method":"ping"}"#;
    assert!(classify(line, "srv").is_none());
}

#[test]
fn unknown_tool_falls_back_to_tool_call() {
    let line = r#"{"jsonrpc":"2.0","id":1,"method":"tools/call","params":{"name":"weird_thing","arguments":{}}}"#;
    let a = classify(line, "srv").expect("classified");
    assert!(matches!(a.kind, ActionKind::ToolCall));
    assert_eq!(a.target, None);
}

#[test]
fn classified_action_carries_request_fields() {
    let line = r#"  {"jsonrpc":"2.0","id":"abc","method":"tools/call","params":{"name":"write_file","arguments":{"path":"/tmp/o","content":"x"}}}"#;
    let a = classify(line, "srv-1").expect("classified");
    assert!(matches!(a.kind, ActionKind::FsWrite));
    assert_eq!(a.server_id, "srv-1");
    assert_eq!(a.target.as_deref(), Some("/tmp/o"));
    assert!(matches!(a.request_id, Some(JsonValue::Str(ref s)) if s == "abc"));
    assert!(matches!(a.status, ActionStatus::Success));
    assert!(a.denied_reason.is_none() && a.error.is_none() && a.latency_ms.is_none());
    assert!(!a.id.is_empty());
}

#[test]
fn notifications_carry_no_tool_call() {
    let line = r#"{"jsonrpc":"2.0","method":"notifications/progress","params":{"progressToken":1}}"#;
    assert!(classify(line, "srv").is_none());
    let named = r#"{"jsonrpc":"2.0","method":"notifications/message","params":{"name":"read_file"}}"#;
    assert!(classify(named, "srv").is_none());
}

#[test]
fn tool_names_map_to_kinds() {
    let args = parse(r#"{"command":"ls -la","query":"rust","url":"https://x.org"}"#).unwrap();
    assert!(matches!(classify_tool("run_command", Some(&args)).0, ActionKind::TerminalExec));
    assert_eq!(classify_tool("run_command", Some(&args)).1.as_deref(), Some("ls -la"));
    assert!(matches!(classify_tool("brave_web_search", Some(&args)).0, ActionKind::Search));
    assert_eq!(classify_tool("brave_web_search", Some(&args)).1.as_deref(), Some("rust"));
    assert!(matches!(classify_tool("Read_File", None).0, ActionKind::FsRead));
    assert!(matches!(classify_tool("nothing_known", None).0, ActionKind::ToolCall));
}

#[test]
fn truncation_adds_ellipsis_only_when_longer() {
    assert_eq!(truncate_for_target("abc", 5), "abc");
    assert_eq!(truncate_for_target("abcdef", 3), "abc\u{2026}");
    assert_eq!(truncate_for_target("", 0), "");
}

#[test]
fn sandbox_denials_become_denied_actions() {
    let a = classify_sandbox_denial(
        "sandbox: node(123) deny(1) file-write-create /Users/x/.ssh/id",
        "srv",
    )
    .expect("denial");
    assert!(matches!(a.status, ActionStatus::Denied));
    assert!(classify_sandbox_denial("all good", "srv").is_none());
}

#[test]
fn action_sink_keeps_the_most_recent_per_server() {
    let mut sink = ActionSink::new(2);
    for n in 0..3 {
        let line = format!(
            r#"{{"jsonrpc":"2.0","id":{},"method":"tools/call","params":{{"name":"t{}"}}}}"#,
            n, n
        );
        let a = classify(&line, "s").unwrap();
        sink.push(&a);
    }
    let snap = sink.snapshot("s", 10);
    assert_eq!(snap.len(), 2);
    assert_eq!(snap[0].tool_name, "t1");
    assert_eq!(snap[1].tool_name, "t2");
    assert_eq!(sink.snapshot("s", 1).len(), 1);
    assert!(sink.snapshot("other", 10).is_empty());
    sink.clear("s");
    assert!(sink.snapshot("s", 10).is_empty());
}

#[test]
fn push_or_update_replaces_by_id() {
    let mut sink = ActionSink::new(10);
    let line = r#"{"jsonrpc":"2.0","id":1,"method":"tools/call","params":{"name":"read_file"}}"#;
    let mut a = classify(line, "s").unwrap();
    a.status = ActionStatus::Pending;
    sink.push_or_update(&a);
    a.status = ActionStatus::Success;
    sink.push_or_update(&a);
    let snap = sink.snapshot("s", 10);
    assert_eq!(snap.len(), 1);
    assert!(matches!(snap[0].status, ActionStatus::Success));
}
