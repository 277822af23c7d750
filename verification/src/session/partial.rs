//! Pending-request state and completion folds for the trace pipeline.
//!
//! A [`PartialAction`] is captured when a request arrives and is consumed by
//! exactly one completion fold (`complete`, `complete_error` or
//! `complete_denied`), which yields the final [`Action`] with its payload hash
//! and size. Args or results over 64 KiB of canonical text are replaced in
//! the record by a marker holding a preview; the hash and the size are
//! still those of the whole payload.

use vstd::prelude::*;

use crate::ids::new_trace_id;
use crate::json::{opt_json, Json, JsonMember, JsonValue};
use crate::text::{chars_of, owned, push_all, slice_chars, str_eq, string_of};
use vstd::utf8::encode_utf8;

use super::hash::{canonical, canonical_json, payload_hash, payload_hash_spec};
use super::types::{Action, ActionError, Actor, Kind, Outcome, SandboxDecision, TraceId, WallTime};

verus! {

/// Captured at request-arrival time; consumed by a completion fold.
#[derive(Clone)]
pub struct PartialAction {
    pub id: TraceId,
    pub seq: u64,
    pub parent_id: Option<TraceId>,
    pub cause_id: Option<TraceId>,
    pub ts_wall: WallTime,
    pub ts_mono_ns: u64,
    pub kind: Kind,
    pub actor: Actor,
    pub tool: Option<String>,
    pub args: Option<JsonValue>,
    pub tags: Vec<String>,
}

/// `a + b`, or `u64::MAX` when the sum does not fit.
pub open spec fn sat_add(a: int, b: int) -> int {
    if a + b > u64::MAX {
        u64::MAX as int
    } else {
        a + b
    }
}

/// The UTF-8 length of the canonical text of `v` (0 when absent).
pub open spec fn canonical_size(v: Option<Json>) -> int {
    match v {
        Some(j) => encode_utf8(canonical(j)).len() as int,
        None => 0,
    }
}

/// `payload_size_bytes`: the compact-JSON size of args plus that of result.
/// serde_json's compact output of a value coincides with its canonical text
/// (maps iterate in key order), so the sizes are those of the canonical
/// texts.
pub open spec fn payload_size_spec(args: Option<Json>, result: Option<Json>) -> int {
    sat_add(canonical_size(args), canonical_size(result))
}

/// The largest args or result kept whole in a trace record, in bytes of
/// canonical text (64 KiB per side).
pub const PAYLOAD_CAP_BYTES: u64 = 65536;

/// How many characters of an oversized payload are kept as its preview.
pub const PREVIEW_CHARS: usize = 256;

/// The payload is over the cap.
pub open spec fn over_cap(v: Option<Json>) -> bool {
    canonical_size(v) > PAYLOAD_CAP_BYTES
}

/// The first 256 characters of `t` (all of it when shorter).
pub open spec fn preview(t: Seq<char>) -> Seq<char> {
    if t.len() <= PREVIEW_CHARS {
        t
    } else {
        t.take(PREVIEW_CHARS as int)
    }
}

/// What stands for an oversized payload `v`:
/// `{"$truncated": true, "preview": <first 256 characters of its text>}`.
pub open spec fn truncated_marker(v: Json) -> Json {
    Json::Object(seq![("$truncated"@, Json::Bool(true)), ("preview"@, Json::Str(preview(canonical(v))))])
}

/// A payload as a trace record keeps it: whole up to the cap, else its
/// marker.
pub open spec fn capped(v: Option<Json>) -> Option<Json> {
    match v {
        Some(j) => if over_cap(v) {
            Some(truncated_marker(j))
        } else {
            v
        },
        None => None,
    }
}

/// Whether `tags` holds a tag equal to `t`.
pub open spec fn has_tag(tags: Seq<String>, t: Seq<char>) -> bool {
    exists|i: int| 0 <= i < tags.len() && #[trigger] tags[i]@ == t
}

/// The size in bytes of the canonical text of an optional value.
fn size_of(v: &Option<JsonValue>) -> (n: u64)
    ensures
        n as int == canonical_size(opt_json(*v)),
{
    match v {
        Some(j) => {
            let t = canonical_json(j);
            t.as_str().as_bytes().len() as u64
        },
        None => 0,
    }
}

/// `payload_size_bytes` of an action with these args and result.
fn approx_payload_size(args: &Option<JsonValue>, result: &Option<JsonValue>) -> (n: u64)
    ensures
        n as int == payload_size_spec(opt_json(*args), opt_json(*result)),
{
    let a = size_of(args);
    let r = size_of(result);
    if r > u64::MAX - a {
        u64::MAX
    } else {
        a + r
    }
}

/// The payload as a trace record keeps it, and whether it was cut.
fn cap_payload(v: Option<JsonValue>) -> (r: (Option<JsonValue>, bool))
    ensures
        opt_json(r.0) == capped(opt_json(v)),
        r.1 == over_cap(opt_json(v)),
{
    let size = size_of(&v);
    match v {
        Some(j) => {
            if size > PAYLOAD_CAP_BYTES {
                let text = chars_of(canonical_json(&j).as_str());
                let kept = if text.len() <= PREVIEW_CHARS {
                    string_of(&text)
                } else {
                    string_of(&slice_chars(&text, 0, PREVIEW_CHARS))
                };
                proof {
                    assert(text@.subrange(0, PREVIEW_CHARS as int) =~= text@.take(PREVIEW_CHARS as int));
                    reveal_strlit("$truncated");
                    reveal_strlit("preview");
                }
                let mut ms: Vec<JsonMember> = Vec::new();
                ms.push(JsonMember { key: owned("$truncated"), value: JsonValue::Bool(true) });
                ms.push(JsonMember { key: owned("preview"), value: JsonValue::Str(kept) });
                proof {
                    crate::json::lemma_members_of(ms@);
                    assert(crate::json::members_of(ms@) =~= seq![
                        ("$truncated"@, Json::Bool(true)),
                        ("preview"@, Json::Str(preview(canonical(j@)))),
                    ]);
                }
                (Some(JsonValue::Object(ms)), true)
            } else {
                (Some(j), false)
            }
        },
        None => (None, false),
    }
}

fn opt_ref(v: &Option<JsonValue>) -> (r: Option<&JsonValue>)
    ensures
        match r {
            Some(x) => *v is Some && x@ == v->0@,
            None => *v is None,
        },
{
    match v {
        Some(x) => Some(x),
        None => None,
    }
}

impl PartialAction {
    /// A partial for a `tools/call` request. The id is a fresh ULID; time
    /// and cause are supplied by the caller.
    pub fn tool_call(
        seq: u64,
        tool: String,
        args: Option<JsonValue>,
        ts_wall: WallTime,
        ts_mono_ns: u64,
        cause_id: Option<TraceId>,
    ) -> (p: Self)
        ensures
            p.seq == seq,
            p.parent_id is None,
            p.cause_id == cause_id,
            p.ts_wall == ts_wall,
            p.ts_mono_ns == ts_mono_ns,
            p.kind == Kind::ToolCall,
            p.actor == Actor::Agent,
            p.tool == Some(tool),
            p.args == args,
            p.tags@.len() == 0,
    {
        PartialAction {
            id: new_trace_id(),
            seq,
            parent_id: None,
            cause_id,
            ts_wall,
            ts_mono_ns,
            kind: Kind::ToolCall,
            actor: Actor::Agent,
            tool: Some(tool),
            args,
            tags: Vec::new(),
        }
    }

    /// A partial for a lifecycle event synthesised by the hub itself: a
    /// system `session_event` with args `{"event": <event>}` and the tag
    /// `lifecycle`.
    pub fn lifecycle(seq: u64, event: &str, ts_wall: WallTime, ts_mono_ns: u64) -> (p: Self)
        ensures
            p.seq == seq,
            p.parent_id is None,
            p.cause_id is None,
            p.ts_wall == ts_wall,
            p.ts_mono_ns == ts_mono_ns,
            p.kind == Kind::SessionEvent,
            p.actor == Actor::System,
            p.tool is None,
            p.args is Some,
            p.args->0@ == Json::Object(seq![(seq!['e', 'v', 'e', 'n', 't'], Json::Str(event@))]),
            p.tags@.len() == 1,
            p.tags@[0]@ == seq!['l', 'i', 'f', 'e', 'c', 'y', 'c', 'l', 'e'],
    {
        proof {
            reveal_strlit("event");
        }
        let key = owned("event");
        let value = JsonValue::Str(owned(event));
        assert(key@ == seq!['e', 'v', 'e', 'n', 't']);
        assert(value.model() == Json::Str(event@));
        let mut members: Vec<JsonMember> = Vec::new();
        members.push(JsonMember { key, value });
        let args = JsonValue::Object(members);
        proof {
            crate::json::lemma_members_of(members@);
            assert(crate::json::members_of(members@) =~= seq![(seq!['e', 'v', 'e', 'n', 't'], Json::Str(event@))]);
        }
        let mut tags: Vec<String> = Vec::new();
        tags.push(owned("lifecycle"));
        proof {
            reveal_strlit("lifecycle");
        }
        PartialAction {
            id: new_trace_id(),
            seq,
            parent_id: None,
            cause_id: None,
            ts_wall,
            ts_mono_ns,
            kind: Kind::SessionEvent,
            actor: Actor::System,
            tool: None,
            args: Some(args),
            tags,
        }
    }

    /// Appends a tag.
    pub fn with_tag(self, tag: String) -> (p: Self)
        ensures
            p.tags@ == self.tags@.push(tag),
            p.id == self.id && p.seq == self.seq && p.parent_id == self.parent_id
                && p.cause_id == self.cause_id && p.ts_wall == self.ts_wall
                && p.ts_mono_ns == self.ts_mono_ns && p.kind == self.kind
                && p.actor == self.actor && p.tool == self.tool && p.args == self.args,
    {
        let mut p = self;
        p.tags.push(tag);
        p
    }

    /// Sets `parent_id`.
    pub fn with_parent(self, parent: TraceId) -> (p: Self)
        ensures
            p.parent_id == Some(parent),
            p.id == self.id && p.seq == self.seq && p.cause_id == self.cause_id
                && p.ts_wall == self.ts_wall && p.ts_mono_ns == self.ts_mono_ns
                && p.kind == self.kind && p.actor == self.actor && p.tool == self.tool
                && p.args == self.args && p.tags == self.tags,
    {
        let mut p = self;
        p.parent_id = Some(parent);
        p
    }

    /// Completes on a successful response: outcome `ok`, the given result,
    /// duration and decision, no error.
    pub fn complete(self, result: Option<JsonValue>, duration_ns: u64, decision: Option<SandboxDecision>) -> (a: Action)
        ensures
            a.id == self.id && a.seq == self.seq && a.parent_id == self.parent_id
                && a.cause_id == self.cause_id && a.ts_wall == self.ts_wall
                && a.ts_mono_ns == self.ts_mono_ns && a.kind == self.kind
                && a.actor == self.actor && a.tool == self.tool && a.tags == self.tags,
            opt_json(a.args) == capped(opt_json(self.args)),
            a.duration_ns == Some(duration_ns),
            opt_json(a.result) == capped(opt_json(result)),
            a.outcome == Outcome::Success,
            a.error is None,
            a.decision == decision,
            a.payload_hash@ == payload_hash_spec(opt_json(self.args), opt_json(result)),
            a.payload_truncated == (over_cap(opt_json(self.args)) || over_cap(opt_json(result))),
            a.payload_size_bytes as int == payload_size_spec(opt_json(self.args), opt_json(result)),
    {
        let payload_hash = payload_hash(opt_ref(&self.args), opt_ref(&result));
        let payload_size_bytes = approx_payload_size(&self.args, &result);
        let (args, args_cut) = cap_payload(self.args);
        let (result, result_cut) = cap_payload(result);
        Action {
            id: self.id,
            seq: self.seq,
            parent_id: self.parent_id,
            cause_id: self.cause_id,
            ts_wall: self.ts_wall,
            ts_mono_ns: self.ts_mono_ns,
            duration_ns: Some(duration_ns),
            kind: self.kind,
            actor: self.actor,
            tool: self.tool,
            args,
            result,
            outcome: Outcome::Success,
            error: None,
            decision,
            payload_hash,
            payload_truncated: args_cut || result_cut,
            payload_size_bytes,
            tags: self.tags,
        }
    }

    /// Completes on an error response from the server: outcome `error`, no
    /// result, the given error and duration, no decision.
    pub fn complete_error(self, error: ActionError, duration_ns: u64) -> (a: Action)
        ensures
            a.id == self.id && a.seq == self.seq && a.parent_id == self.parent_id
                && a.cause_id == self.cause_id && a.ts_wall == self.ts_wall
                && a.ts_mono_ns == self.ts_mono_ns && a.kind == self.kind
                && a.actor == self.actor && a.tool == self.tool && a.tags == self.tags,
            opt_json(a.args) == capped(opt_json(self.args)),
            a.duration_ns == Some(duration_ns),
            a.result is None,
            a.outcome == Outcome::Error,
            a.error == Some(error),
            a.decision is None,
            a.payload_hash@ == payload_hash_spec(opt_json(self.args), None),
            a.payload_truncated == over_cap(opt_json(self.args)),
            a.payload_size_bytes as int == payload_size_spec(opt_json(self.args), None),
    {
        let payload_hash = payload_hash(opt_ref(&self.args), None);
        let none: Option<JsonValue> = None;
        let payload_size_bytes = approx_payload_size(&self.args, &none);
        let (args, args_cut) = cap_payload(self.args);
        Action {
            id: self.id,
            seq: self.seq,
            parent_id: self.parent_id,
            cause_id: self.cause_id,
            ts_wall: self.ts_wall,
            ts_mono_ns: self.ts_mono_ns,
            duration_ns: Some(duration_ns),
            kind: self.kind,
            actor: self.actor,
            tool: self.tool,
            args,
            result: None,
            outcome: Outcome::Error,
            error: Some(error),
            decision: None,
            payload_hash,
            payload_truncated: args_cut,
            payload_size_bytes,
            tags: self.tags,
        }
    }

    /// Completes on a denial: outcome `denied`, no result, the given
    /// decision, error and duration; the tag `denied` is added unless present.
    pub fn complete_denied(self, decision: SandboxDecision, error: ActionError, duration_ns: Option<u64>) -> (a: Action)
        ensures
            a.id == self.id && a.seq == self.seq && a.parent_id == self.parent_id
                && a.cause_id == self.cause_id && a.ts_wall == self.ts_wall
                && a.ts_mono_ns == self.ts_mono_ns && a.kind == self.kind
                && a.actor == self.actor && a.tool == self.tool,
            opt_json(a.args) == capped(opt_json(self.args)),
            a.duration_ns == duration_ns,
            a.result is None,
            a.outcome == Outcome::Denied,
            a.error == Some(error),
            a.decision == Some(decision),
            a.payload_hash@ == payload_hash_spec(opt_json(self.args), None),
            a.payload_truncated == over_cap(opt_json(self.args)),
            a.payload_size_bytes as int == payload_size_spec(opt_json(self.args), None),
            has_tag(self.tags@, seq!['d', 'e', 'n', 'i', 'e', 'd']) ==> a.tags@ == self.tags@,
            !has_tag(self.tags@, seq!['d', 'e', 'n', 'i', 'e', 'd']) ==> a.tags@.len() == self.tags@.len() + 1
                && a.tags@.take(self.tags@.len() as int) == self.tags@
                && a.tags@.last()@ == seq!['d', 'e', 'n', 'i', 'e', 'd'],
    {
        let payload_hash = payload_hash(opt_ref(&self.args), None);
        let none: Option<JsonValue> = None;
        let payload_size_bytes = approx_payload_size(&self.args, &none);
        let mut tags = self.tags;
        let ghost before = tags@;
        proof {
            reveal_strlit("denied");
        }
        let mut found = false;
        let mut i: usize = 0;
        while i < tags.len()
            invariant
                i <= tags.len(),
                tags@ == before,
                found == (exists|j: int| 0 <= j < i && #[trigger] tags@[j]@ == seq!['d', 'e', 'n', 'i', 'e', 'd']),
            decreases tags.len() - i,
        {
            let lit = "denied";
            proof {
                reveal_strlit("denied");
            }
            assert(lit@ == seq!['d', 'e', 'n', 'i', 'e', 'd']);
            let t: &String = &tags[i];
            assert(t@ == tags@[i as int]@);
            let is_denied = str_eq(t.as_str(), lit);
            assert(is_denied == (tags@[i as int]@ == seq!['d', 'e', 'n', 'i', 'e', 'd']));
            if is_denied {
                found = true;
            }
            i = i + 1;
        }
        if !found {
            tags.push(owned("denied"));
            assert(tags@.take(before.len() as int) =~= before);
        }
        let (args, args_cut) = cap_payload(self.args);
        Action {
            id: self.id,
            seq: self.seq,
            parent_id: self.parent_id,
            cause_id: self.cause_id,
            ts_wall: self.ts_wall,
            ts_mono_ns: self.ts_mono_ns,
            duration_ns,
            kind: self.kind,
            actor: self.actor,
            tool: self.tool,
            args,
            result: None,
            outcome: Outcome::Denied,
            error: Some(error),
            decision: Some(decision),
            payload_hash,
            payload_truncated: args_cut,
            payload_size_bytes,
            tags,
        }
    }
}

} // verus!
