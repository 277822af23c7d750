use mcp_hub_lib::db::columns::{
    permission_from_columns, server_columns, server_from_columns, time_text, PermissionColumns, ServerColumns,
};
use mcp_hub_lib::db::models::{McpServer, ServerStatus, Transport};
use mcp_hub_lib::session::types::WallTime;

fn now() -> WallTime {
    WallTime { secs: 1_800_000_000, nanos: 5 }
}

fn columns(args: &str, env: &str, transport: &str, status: &str, installed: &str) -> ServerColumns {
    ServerColumns {
        id: "srv-1".to_string(),
        name: "Files".to_string(),
        description: "d".to_string(),
        command: "npx".to_string(),
        args: args.to_string(),
        env: env.to_string(),
        transport: transport.to_string(),
        status: status.to_string(),
        installed_at: installed.to_string(),
        updated_at: "2026-05-23T14:02:11.137Z".to_string(),
        version: Some("1.2".to_string()),
        source: None,
        icon_url: None,
    }
}

#[test]
fn stored_row_reads_back_as_a_server() {
    let s = server_from_columns(
        columns(r#"["-y","pkg"]"#, r#"{"B":"2","A":"1"}"#, "sse", "running", "2026-05-23T16:02:11+02:00"),
        now(),
    );
    assert_eq!(s.args, vec!["-y", "pkg"]);
    assert_eq!(s.env, vec![("A".to_string(), "1".to_string()), ("B".to_string(), "2".to_string())]);
    assert_eq!(s.transport, Transport::Sse);
    assert_eq!(s.status, ServerStatus::Running);
    assert_eq!(s.installed_at, WallTime { secs: 1_779_544_931, nanos: 0 });
    assert_eq!(s.updated_at, WallTime { secs: 1_779_544_931, nanos: 137_000_000 });
    assert_eq!(s.version.as_deref(), Some("1.2"));
}

#[test]
fn unreadable_columns_fall_back() {
    let s = server_from_columns(columns("not json", r#"{"A":1}"#, "carrier-pigeon", "??", "yesterday"), now());
    assert!(s.args.is_empty());
    assert!(s.env.is_empty());
    assert_eq!(s.transport, Transport::Stdio);
    assert_eq!(s.status, ServerStatus::Stopped);
    assert_eq!(s.installed_at, now());
}

#[test]
fn permission_row_reads_back() {
    let p = permission_from_columns(PermissionColumns {
        id: 3,
        server_id: "srv-1".to_string(),
        scope: "fs.read".to_string(),
        target: None,
        reason: Some("install".to_string()),
        granted: 1,
        granted_at: Some("1970-01-01T00:00:10Z".to_string()),
    });
    assert!(p.granted);
    assert_eq!(p.granted_at, Some(WallTime { secs: 10, nanos: 0 }));
    let q = permission_from_columns(PermissionColumns {
        id: 4,
        server_id: "srv-1".to_string(),
        scope: "internet".to_string(),
        target: None,
        reason: None,
        granted: 0,
        granted_at: Some("garbage".to_string()),
    });
    assert!(!q.granted);
    assert!(q.granted_at.is_none());
}

#[test]
fn server_columns_write_json_and_rfc3339_and_read_back() {
    let s = McpServer {
        id: "srv-2".to_string(),
        name: "Web".to_string(),
        description: String::new(),
        command: "uvx".to_string(),
        args: vec!["mcp-fetch".to_string()],
        env: vec![("TOKEN".to_string(), "x\"y".to_string())],
        transport: Transport::Http,
        status: ServerStatus::Stopped,
        installed_at: WallTime { secs: 10, nanos: 0 },
        updated_at: WallTime { secs: 20, nanos: 500 },
        version: None,
        source: Some("registry".to_string()),
        icon_url: None,
    };
    let c = server_columns(&s).expect("storable");
    assert_eq!(c.args, r#"["mcp-fetch"]"#);
    assert_eq!(c.env, r#"{"TOKEN":"x\"y"}"#);
    assert_eq!(c.transport, "http");
    assert_eq!(c.installed_at, "1970-01-01T00:00:10+00:00");
    let back = server_from_columns(c, now());
    assert_eq!(back.args, s.args);
    assert_eq!(back.env, s.env);
    assert_eq!(back.transport, s.transport);
    assert_eq!(back.installed_at, s.installed_at);
    assert_eq!(back.updated_at, s.updated_at);
    assert_eq!(time_text(WallTime { secs: i64::MAX, nanos: 0 }), None);
}
