use mcp_hub_lib::commands::sessions::{session_summary, sort_newest_first};
use mcp_hub_lib::session::demo::make_demo_session;
use mcp_hub_lib::session::reader::ReadOutcome;
use mcp_hub_lib::session::types::{AppInfo, Kind, Outcome};

fn app() -> AppInfo {
    AppInfo { name: "mcp-hub".to_string(), version: "0.1.0".to_string(), build: "dev".to_string(), os: "linux-x86_64".to_string() }
}

#[test]
fn demo_session_tells_start_read_denied_write() {
    let f = make_demo_session(app());
    assert_eq!(f.schema_version, "0.1.0");
    assert_eq!(f.actions.len(), 3);
    let seqs: Vec<u64> = f.actions.iter().map(|a| a.seq).collect();
    assert_eq!(seqs, vec![0, 1, 2]);
    assert_eq!(f.actions[0].kind, Kind::SessionEvent);
    assert_eq!(f.actions[1].outcome, Outcome::Success);
    assert_eq!(f.actions[2].outcome, Outcome::Denied);
    assert_eq!(f.actions[1].cause_id, f.actions[2].cause_id);
    assert!(f.actions[1].payload_hash.starts_with("sha256:"));
    assert!(f.actions[2].payload_hash.starts_with("sha256-partial:"));
    let st = f.stats.as_ref().unwrap();
    assert_eq!(st.total_actions, 3);
    assert_eq!(st.denied_count, 1);
    assert_eq!(st.by_outcome, vec![("denied".to_string(), 1), ("ok".to_string(), 2)]);
    assert_eq!(st.by_kind, vec![("session_event".to_string(), 1), ("tool_call".to_string(), 2)]);
    assert_eq!(f64::from_bits(st.avg_action_ms_bits), 7.5);
    assert_eq!(f64::from_bits(st.p95_action_ms_bits), 18.3);
    let started = f.session.started_at;
    let ended = f.session.ended_at.unwrap();
    let millis = |t: mcp_hub_lib::session::types::WallTime| t.secs as i128 * 1000 + t.nanos as i128 / 1_000_000;
    assert_eq!(millis(ended) - millis(started), 3_900);
    assert_eq!(millis(f.actions[1].ts_wall) - millis(started), 2_275);
}

#[test]
fn two_demo_sessions_do_not_collide() {
    let a = make_demo_session(app());
    let b = make_demo_session(app());
    assert_ne!(a.session.id, b.session.id);
}

#[test]
fn summaries_list_newest_first() {
    let mut older = make_demo_session(app());
    older.session.started_at.secs -= 100;
    let newer = make_demo_session(app());
    let s1 = session_summary(&ReadOutcome::Complete(older), "/s/old.ndjson");
    let s2 = session_summary(&ReadOutcome::Truncated(newer), "/s/new.ndjson");
    assert_eq!(s1.status, "complete");
    assert_eq!(s2.status, "truncated");
    assert_eq!(s1.action_count, 3);
    assert_eq!(s1.denied_count, 1);
    assert_eq!(s1.duration_ms, 3_900);
    assert_eq!(s1.id.len(), 26);
    let sorted = sort_newest_first(vec![s1, s2]);
    assert_eq!(sorted[0].path, "/s/new.ndjson");
    assert_eq!(sorted[1].path, "/s/old.ndjson");
}

#[test]
fn demo_session_describes_the_demo_server_and_sandbox() {
    let f = make_demo_session(app());
    let m = &f.session;
    assert_eq!(m.server.version, "0.6.2");
    assert_eq!(m.server.transport, "stdio");
    assert_eq!(m.server.command, vec!["npx", "@modelcontextprotocol/server-filesystem", "/Users/demo/Projects"]);
    assert_eq!(m.server.capabilities, vec!["tools", "resources"]);
    assert_eq!(m.client.name, "cursor");
    assert_eq!(m.client.version, "0.9.4");
    assert_eq!(m.sandbox.mode, "enforce");
    assert_eq!(m.sandbox.fs_allow, vec!["/Users/demo/Projects"]);
    assert_eq!(m.sandbox.fs_deny, vec!["~/.ssh", "~/.aws"]);
    assert!(m.sandbox.net_allow.is_empty());
    assert_eq!(m.sandbox.net_default, "deny");
    let start = &f.actions[0];
    assert_eq!(start.tags, vec!["lifecycle"]);
    assert_eq!(start.duration_ns, Some(0));
    assert!(start.parent_id.is_none() && start.cause_id.is_none());
}
