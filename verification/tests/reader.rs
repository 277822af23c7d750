use mcp_hub_lib::error::AppError;
use mcp_hub_lib::session::reader::{
    check_schema_version, durations_fit, finish_scan, read_ndjson_from, recompute_stats, scan_ndjson, NdjsonLine,
    ReadOutcome,
};
use mcp_hub_lib::session::types::{
    Action, Actor, AppInfo, ClientInfo, Kind, NdjsonRecord, Outcome, SandboxConfig, ServerInfo, SessionMeta,
    Stats, TraceId, WallTime, SCHEMA_VERSION,
};

fn wall(secs: i64) -> WallTime {
    WallTime { secs, nanos: 0 }
}

fn meta() -> SessionMeta {
    SessionMeta {
        id: TraceId(7),
        started_at: wall(1_700_000_000),
        ended_at: Some(wall(1_700_000_004)),
        started_mono_ns: 0,
        app: AppInfo { name: "mcp-hub".to_string(), version: "0.1.0".to_string(), build: "dev".to_string(), os: "linux-x86_64".to_string() },
        server: ServerInfo {
            id: "s".to_string(),
            name: "S".to_string(),
            version: "1".to_string(),
            transport: "stdio".to_string(),
            command: vec!["npx".to_string()],
            capabilities: Vec::new(),
        },
        client: ClientInfo { name: "c".to_string(), version: "0".to_string() },
        sandbox: SandboxConfig {
            mode: "enforce".to_string(),
            fs_allow: Vec::new(),
            fs_deny: Vec::new(),
            net_allow: Vec::new(),
            net_default: "deny".to_string(),
        },
        redactions: None,
    }
}

fn action(seq: u64, kind: Kind, outcome: Outcome, mono: u64, dur: Option<u64>) -> Action {
    Action {
        id: TraceId(100 + seq as u128),
        seq,
        parent_id: None,
        cause_id: None,
        ts_wall: wall(1_700_000_001),
        ts_mono_ns: mono,
        duration_ns: dur,
        kind,
        actor: Actor::Agent,
        tool: Some("t".to_string()),
        args: None,
        result: None,
        outcome,
        error: None,
        decision: None,
        payload_hash: "sha256-partial:00".to_string(),
        payload_truncated: false,
        payload_size_bytes: 0,
        tags: Vec::new(),
    }
}

fn stats() -> Stats {
    Stats {
        total_actions: 3,
        by_outcome: vec![("ok".to_string(), 3)],
        by_kind: vec![("tool_call".to_string(), 3)],
        denied_count: 0,
        error_count: 0,
        duration_ms: 3_900,
        avg_action_ms_bits: 7.5f64.to_bits(),
        p95_action_ms_bits: 18.3f64.to_bits(),
        bytes_in: 0,
        bytes_out: 0,
    }
}

fn line(rec: NdjsonRecord) -> NdjsonLine {
    NdjsonLine::Text { text: "{...}".to_string(), record: Some(rec) }
}

fn meta_line() -> NdjsonLine {
    line(NdjsonRecord::Meta { schema_version: SCHEMA_VERSION.to_string(), session: meta() })
}

fn action_line(a: Action) -> NdjsonLine {
    line(NdjsonRecord::Action { action: a })
}

fn three_actions() -> Vec<Action> {
    vec![
        action(0, Kind::SessionEvent, Outcome::Success, 0, Some(0)),
        action(1, Kind::ToolCall, Outcome::Success, 2_275_000_000, Some(18_324_000)),
        action(2, Kind::ToolCall, Outcome::Denied, 2_971_000_000, Some(4_102_000)),
    ]
}

#[test]
fn reader_handles_truncated_session_missing_end() {
    let mut lines = vec![meta_line()];
    for a in three_actions().into_iter().take(2) {
        lines.push(action_line(a));
    }
    let outcome = read_ndjson_from(lines).ok().expect("reader");
    assert!(outcome.is_truncated(), "missing end record → Truncated");
    let file = outcome.into_file();
    assert_eq!(file.actions.len(), 2);
    assert!(file.session.ended_at.is_none(), "truncated → ended_at None");
    assert_eq!(file.stats.as_ref().unwrap().total_actions, 2);
}

#[test]
fn reader_tolerates_partial_last_line() {
    let lines = vec![
        meta_line(),
        action_line(three_actions().remove(0)),
        NdjsonLine::Text { text: r#"{"type":"action","act"#.to_string(), record: None },
    ];
    let outcome = read_ndjson_from(lines).ok().expect("reader");
    assert!(outcome.is_truncated());
    let file = outcome.into_file();
    assert_eq!(file.actions.len(), 1);
}

#[test]
fn reader_sorts_actions_by_seq_regardless_of_disk_order() {
    let mut lines = vec![meta_line()];
    for a in three_actions().into_iter().rev() {
        lines.push(action_line(a));
    }
    let outcome = read_ndjson_from(lines).ok().expect("reader");
    let file = outcome.into_file();
    let seqs: Vec<u64> = file.actions.iter().map(|a| a.seq).collect();
    assert_eq!(seqs, vec![0, 1, 2], "reader must sort by seq ascending");
}

#[test]
fn complete_session_keeps_writer_stats_and_end_time() {
    let mut lines = vec![meta_line()];
    for a in three_actions() {
        lines.push(action_line(a));
    }
    lines.push(line(NdjsonRecord::End { ended_at: wall(1_700_000_009), stats: stats() }));
    lines.push(action_line(action(9, Kind::ToolCall, Outcome::Error, 0, None)));
    match read_ndjson_from(lines) {
        Ok(ReadOutcome::Complete(f)) => {
            assert_eq!(f.actions.len(), 3);
            assert_eq!(f.session.ended_at, Some(wall(1_700_000_009)));
            let st = f.stats.unwrap();
            assert_eq!(st.duration_ms, 3_900);
            assert_eq!(f64::from_bits(st.avg_action_ms_bits), 7.5);
            assert_eq!(f.schema_version, "0.1.0");
        }
        _ => panic!("expected a complete session"),
    }
}

#[test]
fn blank_and_comment_lines_are_skipped() {
    let lines = vec![
        NdjsonLine::Text { text: "   ".to_string(), record: None },
        NdjsonLine::Text { text: "  # a comment".to_string(), record: None },
        meta_line(),
        NdjsonLine::Text { text: "".to_string(), record: None },
        action_line(three_actions().remove(1)),
    ];
    let file = read_ndjson_from(lines).ok().expect("reader").into_file();
    assert_eq!(file.actions.len(), 1);
}

#[test]
fn unreadable_line_ends_reading() {
    let lines = vec![meta_line(), NdjsonLine::Unreadable, action_line(three_actions().remove(1))];
    let outcome = read_ndjson_from(lines).ok().expect("reader");
    assert!(outcome.is_truncated());
    assert_eq!(outcome.into_file().actions.len(), 0);
}

fn internal_message(e: AppError) -> String {
    match e {
        AppError::Internal(m) => m,
        _ => panic!("expected an internal error"),
    }
}

#[test]
fn duplicate_meta_is_an_error_naming_the_line() {
    let lines = vec![
        NdjsonLine::Text { text: "# header".to_string(), record: None },
        meta_line(),
        meta_line(),
    ];
    let err = read_ndjson_from(lines).err().expect("error");
    assert_eq!(internal_message(err), "session reader: duplicate meta record at line 3");
}

#[test]
fn action_before_meta_is_an_error() {
    let lines = vec![action_line(three_actions().remove(0)), meta_line()];
    let err = read_ndjson_from(lines).err().expect("error");
    assert_eq!(internal_message(err), "session reader: action record before meta");
}

#[test]
fn file_without_meta_is_an_error() {
    let err = read_ndjson_from(Vec::new()).err().expect("error");
    assert_eq!(internal_message(err), "session reader: file has no meta record");
    let lines = vec![line(NdjsonRecord::End { ended_at: wall(1), stats: stats() })];
    let err = read_ndjson_from(lines).err().expect("error");
    assert_eq!(internal_message(err), "session reader: file has no meta record");
}

#[test]
fn recomputed_stats_count_by_outcome_and_kind() {
    let mut acts = three_actions();
    acts.push(action(3, Kind::ToolCall, Outcome::Error, 5_000_000_000, None));
    let st = recompute_stats(&acts);
    assert_eq!(st.total_actions, 4);
    assert_eq!(
        st.by_outcome,
        vec![("denied".to_string(), 1), ("error".to_string(), 1), ("ok".to_string(), 2)]
    );
    assert_eq!(st.by_kind, vec![("session_event".to_string(), 1), ("tool_call".to_string(), 3)]);
    assert_eq!(st.denied_count, 1);
    assert_eq!(st.error_count, 1);
    assert_eq!(st.duration_ms, 5_000);
    assert_eq!(st.avg_action_ms_bits, 0);
}

#[test]
fn equal_seqs_keep_file_order() {
    let mut a = action(1, Kind::ToolCall, Outcome::Success, 0, None);
    a.tool = Some("first".to_string());
    let mut b = action(1, Kind::ToolCall, Outcome::Success, 0, None);
    b.tool = Some("second".to_string());
    let c = action(0, Kind::ToolCall, Outcome::Success, 0, None);
    let lines = vec![meta_line(), action_line(a), action_line(b), action_line(c)];
    let scanned = scan_ndjson(lines).ok().expect("scan");
    assert!(scanned.end.is_none());
    assert!(durations_fit(&scanned.actions));
    let tools: Vec<String> = scanned.actions.iter().map(|a| a.tool.clone().unwrap()).collect();
    assert_eq!(tools, vec!["t", "first", "second"]);
    let f = finish_scan(scanned).into_file();
    assert_eq!(f.actions.len(), 3);
}

#[test]
fn overflowing_end_is_detected() {
    let acts = vec![action(0, Kind::ToolCall, Outcome::Success, u64::MAX, Some(1))];
    assert!(!durations_fit(&acts));
    assert!(durations_fit(&three_actions()));
}

#[test]
fn higher_major_schema_version_is_refused() {
    let mut lines = vec![line(NdjsonRecord::Meta { schema_version: "1.0.0".to_string(), session: meta() })];
    for a in three_actions() {
        lines.push(action_line(a));
    }
    lines.push(line(NdjsonRecord::End { ended_at: wall(1_700_000_004), stats: stats() }));
    let err = read_ndjson_from(lines).err().expect("refused");
    assert_eq!(
        internal_message(err),
        "session reader: unsupported schema_version 1.0.0 (this reader reads major version 0)"
    );
}

#[test]
fn minor_and_patch_versions_are_read() {
    for v in ["0.1.0", "0.2.0", "0.1.7", "00.9", "x.1"] {
        let lines = vec![line(NdjsonRecord::Meta { schema_version: v.to_string(), session: meta() })];
        assert!(read_ndjson_from(lines).is_ok(), "{v}");
    }
    assert!(check_schema_version("12").is_err());
    assert!(check_schema_version("0").is_ok());
}
