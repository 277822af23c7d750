use mcp_hub_lib::json_decode::decode;
use mcp_hub_lib::json::{JsonMember, JsonValue};
use mcp_hub_lib::session::hash::{canonical_json, format_payload_hash, payload_hash};

fn json(text: &str) -> JsonValue {
    decode(text).unwrap()
}

fn member(k: &str, v: JsonValue) -> JsonMember {
    JsonMember { key: k.to_string(), value: v }
}

fn num(n: &str) -> JsonValue {
    JsonValue::Number(n.to_string())
}

#[test]
fn canonical_sorts_object_keys() {
    let v = JsonValue::Object(vec![
        member("b", num("1")),
        member("a", num("2")),
        member("c", JsonValue::Object(vec![member("z", num("0")), member("y", num("1"))])),
    ]);
    assert_eq!(canonical_json(&v), r#"{"a":2,"b":1,"c":{"y":1,"z":0}}"#);
}

#[test]
fn canonical_handles_arrays_and_primitives() {
    let v = json(r#"[null, true, false, 1, -2, 3.5, "hi"]"#);
    assert_eq!(canonical_json(&v), r#"[null,true,false,1,-2,3.5,"hi"]"#);
}

#[test]
fn hash_partial_when_result_absent() {
    let args = json(r#"{"path": "/tmp"}"#);
    let h = payload_hash(Some(&args), None);
    assert!(h.starts_with("sha256-partial:"));
    assert_eq!(h.len(), "sha256-partial:".len() + 64);
}

#[test]
fn hash_full_when_both_present() {
    let args = json(r#"{"path": "/tmp"}"#);
    let result = json(r#"{"ok": true}"#);
    let h = payload_hash(Some(&args), Some(&result));
    assert!(h.starts_with("sha256:"));
    assert_eq!(h.len(), "sha256:".len() + 64);
}

#[test]
fn hash_is_stable_under_key_reordering() {
    let a = JsonValue::Object(vec![member("x", num("1")), member("y", num("2"))]);
    let b = JsonValue::Object(vec![member("y", num("2")), member("x", num("1"))]);
    assert_eq!(
        payload_hash(Some(&a), None),
        payload_hash(Some(&b), None),
        "canonical hash must be invariant to JSON object key order"
    );
}

#[test]
fn strings_are_escaped_as_serde_json_does() {
    let v = JsonValue::Str("q\"b\\n\nt\tc\u{1}é".to_string());
    let expected = serde_json::to_string("q\"b\\n\nt\tc\u{1}é").unwrap();
    assert_eq!(canonical_json(&v), expected);
}

#[test]
fn canonical_matches_serde_json_compact_output() {
    let text = r#"{"z":[1,{"b":null,"a":"x"}],"a":{"k":false},"m":"é\u0007"}"#;
    let value: serde_json::Value = serde_json::from_str(text).unwrap();
    assert_eq!(canonical_json(&decode(text).unwrap()), serde_json::to_string(&value).unwrap());
}

#[test]
fn hash_is_sha256_of_the_canonical_bytes() {
    let args = json(r#"{"b":1,"a":2}"#);
    let result = json(r#"[true]"#);
    let mut data = br#"{"a":2,"b":1}"#.to_vec();
    data.push(0x1f);
    data.extend_from_slice(b"[true]");
    let digest = <sha2::Sha256 as sha2::Digest>::digest(&data);
    let hex: String = digest.iter().map(|b| format!("{:02x}", b)).collect();
    assert_eq!(payload_hash(Some(&args), Some(&result)), format!("sha256:{}", hex));
    let empty = <sha2::Sha256 as sha2::Digest>::digest(b"{}");
    let hex_empty: String = empty.iter().map(|b| format!("{:02x}", b)).collect();
    assert_eq!(payload_hash(None, None), format!("sha256-partial:{}", hex_empty));
}

#[test]
fn hash_is_stable_under_nested_key_reordering() {
    let a = JsonValue::Object(vec![
        member("outer", JsonValue::Object(vec![member("p", num("1")), member("q", JsonValue::Array(vec![
            JsonValue::Object(vec![member("m", num("2")), member("n", num("3"))]),
        ]))])),
        member("k", JsonValue::Str("v".to_string())),
    ]);
    let b = JsonValue::Object(vec![
        member("k", JsonValue::Str("v".to_string())),
        member("outer", JsonValue::Object(vec![member("q", JsonValue::Array(vec![
            JsonValue::Object(vec![member("n", num("3")), member("m", num("2"))]),
        ])), member("p", num("1"))])),
    ]);
    assert_eq!(canonical_json(&a), canonical_json(&b));
    assert_eq!(canonical_json(&a), r#"{"k":"v","outer":{"p":1,"q":[{"m":2,"n":3}]}}"#);
    let r1 = JsonValue::Object(vec![member("z", num("0")), member("a", JsonValue::Object(vec![member("d", num("4")), member("c", num("5"))]))]);
    let r2 = JsonValue::Object(vec![member("a", JsonValue::Object(vec![member("c", num("5")), member("d", num("4"))])), member("z", num("0"))]);
    assert_eq!(payload_hash(Some(&a), Some(&r1)), payload_hash(Some(&b), Some(&r2)));
}

#[test]
fn payload_hash_text_is_prefix_and_lower_hex() {
    let digest = vec![0x00u8, 0xab, 0xff, 0x10];
    assert_eq!(format_payload_hash(true, &digest), "sha256:00abff10");
    assert_eq!(format_payload_hash(false, &digest), "sha256-partial:00abff10");
}
