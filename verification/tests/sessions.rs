use mcp_hub_lib::commands::sessions::{session_summary, sort_newest_first, SessionSummary};
use mcp_hub_lib::session::demo::make_demo_session;
use mcp_hub_lib::session::reader::ReadOutcome;
use mcp_hub_lib::session::types::{AppInfo, TraceId, WallTime};

fn summary(path: &str, secs: i64, nanos: u32) -> SessionSummary {
    SessionSummary {
        id: "01HXYZ0000000000000000000A".to_string(),
        server_id: "fs".to_string(),
        server_name: "Filesystem".to_string(),
        client_name: "cursor".to_string(),
        started_at: WallTime { secs, nanos },
        ended_at: None,
        action_count: 0,
        denied_count: 0,
        error_count: 0,
        duration_ms: 0,
        status: "complete",
        path: path.to_string(),
    }
}

#[test]
fn session_list_runs_newest_first_and_keeps_ties_in_order() {
    let input = vec![
        summary("a", 100, 0),
        summary("b", 300, 5),
        summary("c", 100, 0),
        summary("d", 300, 7),
        summary("e", 200, 0),
    ];
    let out = sort_newest_first(input);
    let paths: Vec<&str> = out.iter().map(|s| s.path.as_str()).collect();
    assert_eq!(paths, vec!["d", "b", "e", "a", "c"]);
}

#[test]
fn empty_session_list_stays_empty() {
    assert!(sort_newest_first(Vec::new()).is_empty());
}

#[test]
fn summary_ids_are_crockford_base32_of_the_ulid() {
    let app = AppInfo { name: "mcp-hub".to_string(), version: "0.1.0".to_string(), build: "dev".to_string(), os: "linux".to_string() };
    let mut f = make_demo_session(app);
    f.session.id = TraceId(0);
    let zero = session_summary(&ReadOutcome::Complete(f), "/s/a.ndjson");
    assert_eq!(zero.id, "00000000000000000000000000");
    let app = AppInfo { name: "mcp-hub".to_string(), version: "0.1.0".to_string(), build: "dev".to_string(), os: "linux".to_string() };
    let mut g = make_demo_session(app);
    g.session.id = TraceId(u128::MAX);
    assert_eq!(session_summary(&ReadOutcome::Complete(g), "/s/b.ndjson").id, "7ZZZZZZZZZZZZZZZZZZZZZZZZZ");
    let app = AppInfo { name: "mcp-hub".to_string(), version: "0.1.0".to_string(), build: "dev".to_string(), os: "linux".to_string() };
    let mut h = make_demo_session(app);
    h.session.id = TraceId(31);
    assert_eq!(session_summary(&ReadOutcome::Complete(h), "/s/c.ndjson").id, "0000000000000000000000000Z");
}
