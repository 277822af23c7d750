use mcp_hub_lib::mcp::agent::ActionKind;
use mcp_hub_lib::security::approvals::{
    is_sensitive_fs_path, risk_for_kind, ApprovalDecision, ApprovalRegistry,
};

#[test]
fn risk_buckets_sensible() {
    assert_eq!(risk_for_kind(ActionKind::FsRead, Some("/tmp/x")), "low");
    assert_eq!(
        risk_for_kind(ActionKind::FsRead, Some("/Users/x/.ssh/config")),
        "medium",
    );
    assert_eq!(risk_for_kind(ActionKind::FsWrite, Some("/tmp/x")), "medium");
    assert_eq!(
        risk_for_kind(ActionKind::FsWrite, Some("/Users/x/.ssh/config")),
        "high",
    );
    assert_eq!(risk_for_kind(ActionKind::TerminalExec, None), "high");
    assert_eq!(risk_for_kind(ActionKind::Search, None), "low");
}

#[test]
fn registry_round_trips_a_decision() {
    let mut reg = ApprovalRegistry::new();
    let (tx, mut rx) = tokio::sync::oneshot::channel();
    reg.register("test-1".to_string(), tx);
    assert_eq!(reg.pending_count(), 1);

    let delivered = reg.resolve("test-1", ApprovalDecision::AllowOnce);
    assert!(delivered);
    assert_eq!(reg.pending_count(), 0);

    let received = rx.try_recv().expect("oneshot");
    assert!(matches!(received, ApprovalDecision::AllowOnce));
}

#[test]
fn resolve_unknown_id_returns_false() {
    let mut reg = ApprovalRegistry::new();
    assert!(!reg.resolve("nope", ApprovalDecision::Deny));
}

#[test]
fn resolving_twice_delivers_once() {
    let mut reg = ApprovalRegistry::new();
    let (tx, _rx) = tokio::sync::oneshot::channel();
    reg.register("a".to_string(), tx);
    assert!(reg.resolve("a", ApprovalDecision::Deny));
    assert!(!reg.resolve("a", ApprovalDecision::AllowOnce));
    assert_eq!(reg.pending_count(), 0);
}

#[test]
fn registering_an_id_again_replaces_it() {
    let mut reg = ApprovalRegistry::new();
    let (tx1, mut rx1) = tokio::sync::oneshot::channel();
    let (tx2, mut rx2) = tokio::sync::oneshot::channel();
    reg.register("same".to_string(), tx1);
    reg.register("same".to_string(), tx2);
    assert_eq!(reg.pending_count(), 1);
    assert!(reg.resolve("same", ApprovalDecision::AllowSession));
    assert!(rx1.try_recv().is_err());
    assert!(matches!(rx2.try_recv(), Ok(ApprovalDecision::AllowSession)));
}

#[test]
fn dropped_receiver_is_not_delivered() {
    let mut reg = ApprovalRegistry::new();
    let (tx, rx) = tokio::sync::oneshot::channel();
    drop(rx);
    reg.register("gone".to_string(), tx);
    assert!(!reg.resolve("gone", ApprovalDecision::AllowOnce));
    assert_eq!(reg.pending_count(), 0);
}

#[test]
fn sensitive_paths_are_case_insensitive() {
    assert!(is_sensitive_fs_path("/Users/x/.SSH/id_rsa"));
    assert!(is_sensitive_fs_path("/etc/passwd"));
    assert!(is_sensitive_fs_path("/Library/Keychains/login"));
    assert!(!is_sensitive_fs_path("/tmp/notes.txt"));
}

#[test]
fn risk_of_network_and_other_kinds() {
    assert_eq!(risk_for_kind(ActionKind::HttpFetch, None), "medium");
    assert_eq!(risk_for_kind(ActionKind::BrowserOpen, Some("https://x")), "medium");
    assert_eq!(risk_for_kind(ActionKind::MemoryStore, None), "low");
    assert_eq!(risk_for_kind(ActionKind::ToolCall, Some("/etc/hosts")), "low");
    assert_eq!(risk_for_kind(ActionKind::Other, None), "low");
    assert_eq!(risk_for_kind(ActionKind::FsRead, None), "low");
}
