use mcp_hub_lib::json::{JsonMember, JsonValue};
use mcp_hub_lib::session::hash::{canonical_json, payload_hash};
use mcp_hub_lib::session::partial::PartialAction;
use mcp_hub_lib::session::types::{ActionError, Actor, Kind, Outcome, SandboxDecision, TraceId, WallTime};

fn ts() -> WallTime {
    // 2026-05-23T14:00:00Z
    WallTime { secs: 1_779_544_800, nanos: 0 }
}

fn obj(k: &str, v: &str) -> JsonValue {
    JsonValue::Object(vec![JsonMember { key: k.to_string(), value: JsonValue::Str(v.to_string()) }])
}

#[test]
fn tool_call_complete_ok_produces_full_action() {
    let p = PartialAction::tool_call(7, "read_file".to_string(), Some(obj("path", "/tmp")), ts(), 1_000_000, None);
    let id = p.id;
    let action = p.complete(Some(obj("content", "...")), 5_000_000, None);

    assert_eq!(action.id, id);
    assert_eq!(action.seq, 7);
    assert_eq!(action.outcome, Outcome::Success);
    assert_eq!(action.kind, Kind::ToolCall);
    assert_eq!(action.actor, Actor::Agent);
    assert_eq!(action.duration_ns, Some(5_000_000));
    assert!(action.error.is_none());
    assert!(action.payload_hash.starts_with("sha256:"));
    assert!(action.payload_size_bytes > 0);
}

#[test]
fn complete_error_carries_error_and_no_result() {
    let p = PartialAction::tool_call(1, "fetch".to_string(), Some(obj("url", "https://x")), ts(), 0, None);
    let err = ActionError {
        code: "EBADURL".to_string(),
        message: "bad url".to_string(),
        source: "tool".to_string(),
        data: None,
    };
    let action = p.complete_error(err, 1_000);

    assert_eq!(action.outcome, Outcome::Error);
    assert!(action.result.is_none());
    assert_eq!(action.error.as_ref().unwrap().code, "EBADURL");
    assert!(action.payload_hash.starts_with("sha256-partial:"));
}

#[test]
fn complete_denied_tags_action_and_carries_decision() {
    let p = PartialAction::tool_call(2, "write_file".to_string(), Some(obj("path", "/etc/passwd")), ts(), 0, None);
    let decision = SandboxDecision {
        verdict: "deny".to_string(),
        rule_id: "fs.deny.system".to_string(),
        reason: "system path".to_string(),
        mode: "enforce".to_string(),
        prompted: false,
        prompt_resolution: None,
    };
    let err = ActionError {
        code: "SANDBOX_DENY".to_string(),
        message: "blocked".to_string(),
        source: "sandbox".to_string(),
        data: None,
    };
    let action = p.complete_denied(decision, err, Some(500));

    assert_eq!(action.outcome, Outcome::Denied);
    assert!(action.tags.contains(&"denied".to_string()));
    assert_eq!(action.decision.as_ref().unwrap().rule_id, "fs.deny.system");
    assert!(action.payload_hash.starts_with("sha256-partial:"));
}

#[test]
fn lifecycle_event_is_system_actor_with_lifecycle_tag() {
    let p = PartialAction::lifecycle(0, "start", ts(), 0);
    assert_eq!(p.actor, Actor::System);
    assert_eq!(p.kind, Kind::SessionEvent);
    assert!(p.tags.contains(&"lifecycle".to_string()));

    let action = p.complete(None, 0, None);
    assert_eq!(action.outcome, Outcome::Success);
    assert!(action.payload_hash.starts_with("sha256-partial:"));
}

#[test]
fn with_tag_and_with_parent_are_chainable_and_immutable() {
    let p = PartialAction::tool_call(0, "x".to_string(), None, ts(), 0, None)
        .with_tag("fs".to_string())
        .with_tag("read".to_string())
        .with_parent(TraceId(42));
    assert_eq!(p.tags, vec!["fs", "read"]);
    assert!(p.parent_id.is_some());
}

#[test]
fn denied_tag_is_not_added_twice() {
    let p = PartialAction::tool_call(3, "x".to_string(), None, ts(), 0, None).with_tag("denied".to_string());
    let decision = SandboxDecision {
        verdict: "deny".to_string(),
        rule_id: "r".to_string(),
        reason: "r".to_string(),
        mode: "enforce".to_string(),
        prompted: true,
        prompt_resolution: Some("deny".to_string()),
    };
    let err = ActionError { code: "SANDBOX_DENY".to_string(), message: "m".to_string(), source: "sandbox".to_string(), data: None };
    let action = p.complete_denied(decision, err, None);
    assert_eq!(action.tags, vec!["denied"]);
    assert_eq!(action.duration_ns, None);
}

#[test]
fn payload_size_counts_compact_json_of_args_and_result() {
    let args = obj("path", "/tmp");
    let result = obj("ok", "é");
    let p = PartialAction::tool_call(0, "t".to_string(), Some(args), ts(), 0, None);
    let action = p.complete(Some(result), 1, None);
    let expected = r#"{"path":"/tmp"}"#.len() + r#"{"ok":"é"}"#.len();
    assert_eq!(action.payload_size_bytes, expected as u64);
}

fn marker_preview(v: &JsonValue) -> Option<String> {
    match v {
        JsonValue::Object(ms) if ms.len() == 2 => {
            assert_eq!(ms[0].key, "$truncated");
            assert!(matches!(ms[0].value, JsonValue::Bool(true)));
            assert_eq!(ms[1].key, "preview");
            match &ms[1].value {
                JsonValue::Str(s) => Some(s.clone()),
                _ => None,
            }
        }
        _ => None,
    }
}

#[test]
fn oversized_args_are_cut_to_a_marker_but_hashed_whole() {
    let big = obj("blob", &"a".repeat(70_000));
    let text = canonical_json(&big);
    let p = PartialAction::tool_call(3, "write_file".to_string(), Some(big.clone()), ts(), 0, None);
    let action = p.complete(Some(obj("ok", "yes")), 10, None);
    assert!(action.payload_truncated);
    let preview = marker_preview(action.args.as_ref().unwrap()).expect("marker");
    assert_eq!(preview.chars().count(), 256);
    assert_eq!(preview, text.chars().take(256).collect::<String>());
    assert!(preview.starts_with("{\"blob\":\"aaa"));
    assert_eq!(action.payload_hash, payload_hash(Some(&big), Some(&obj("ok", "yes"))));
    assert_eq!(action.payload_size_bytes, (text.len() + canonical_json(&obj("ok", "yes")).len()) as u64);
    // The small result is kept whole.
    assert_eq!(canonical_json(action.result.as_ref().unwrap()), r#"{"ok":"yes"}"#);
}

#[test]
fn oversized_result_alone_sets_the_flag_and_small_payloads_stay_whole() {
    let p = PartialAction::tool_call(4, "read_file".to_string(), Some(obj("path", "/x")), ts(), 0, None);
    let action = p.complete(Some(obj("content", &"b".repeat(65_536))), 10, None);
    assert!(action.payload_truncated);
    assert!(marker_preview(action.result.as_ref().unwrap()).is_some());
    assert!(matches!(action.args, Some(JsonValue::Object(ref ms)) if ms[0].key == "path"));

    let exact = PartialAction::tool_call(5, "t".to_string(), Some(obj("k", &"c".repeat(65_536 - 8))), ts(), 0, None);
    let kept = exact.complete(None, 0, None);
    assert!(!kept.payload_truncated, "65536 bytes is at the cap, not over it");
}

#[test]
fn denials_and_errors_cut_oversized_args_too() {
    let big = obj("blob", &"z".repeat(70_000));
    let p = PartialAction::tool_call(6, "write_file".to_string(), Some(big.clone()), ts(), 0, None);
    let err = ActionError { code: "E".to_string(), message: "m".to_string(), source: "tool".to_string(), data: None };
    let a = p.complete_error(err, 1);
    assert!(a.payload_truncated);
    assert!(marker_preview(a.args.as_ref().unwrap()).is_some());
}
