//! The session wire schema, held as plain values: identifiers as their
//! 128-bit ULID value, wall-clock instants as seconds and nanoseconds since
//! the Unix epoch, JSON payloads as [`JsonValue`], and the two floating-point
//! statistics as their IEEE-754 bit patterns.

use vstd::prelude::*;

use crate::json::JsonValue;

verus! {

/// Wire-format version.
pub const SCHEMA_VERSION: &'static str = "0.1.0";

/// A ULID, held as its 128-bit value.
#[derive(Clone, Copy, Debug, PartialEq, Eq, Structural)]
pub struct TraceId(pub u128);

/// A UTC instant: seconds since the Unix epoch and nanoseconds within the
/// second.
#[derive(Clone, Copy, Debug, PartialEq, Eq, Structural)]
pub struct WallTime {
    pub secs: i64,
    pub nanos: u32,
}

/// A whole session artifact.
pub struct SessionFile {
    pub schema_version: String,
    pub session: SessionMeta,
    pub actions: Vec<Action>,
    pub stats: Option<Stats>,
}

/// Session metadata (the `meta` record).
pub struct SessionMeta {
    pub id: TraceId,
    pub started_at: WallTime,
    pub ended_at: Option<WallTime>,
    pub started_mono_ns: u64,
    pub app: AppInfo,
    pub server: ServerInfo,
    pub client: ClientInfo,
    pub sandbox: SandboxConfig,
    pub redactions: Option<Redactions>,
}

pub struct AppInfo {
    pub name: String,
    pub version: String,
    pub build: String,
    pub os: String,
}

pub struct ServerInfo {
    pub id: String,
    pub name: String,
    pub version: String,
    pub transport: String,
    pub command: Vec<String>,
    pub capabilities: Vec<String>,
}

pub struct ClientInfo {
    pub name: String,
    pub version: String,
}

pub struct SandboxConfig {
    pub mode: String,
    pub fs_allow: Vec<String>,
    pub fs_deny: Vec<String>,
    pub net_allow: Vec<String>,
    pub net_default: String,
}

pub struct Redactions {
    pub paths: Vec<String>,
    pub policy: String,
}

/// One traced action.
pub struct Action {
    pub id: TraceId,
    pub seq: u64,
    pub parent_id: Option<TraceId>,
    pub cause_id: Option<TraceId>,
    pub ts_wall: WallTime,
    pub ts_mono_ns: u64,
    pub duration_ns: Option<u64>,
    pub kind: Kind,
    pub actor: Actor,
    pub tool: Option<String>,
    pub args: Option<JsonValue>,
    pub result: Option<JsonValue>,
    pub outcome: Outcome,
    pub error: Option<ActionError>,
    pub decision: Option<SandboxDecision>,
    pub payload_hash: String,
    pub payload_truncated: bool,
    pub payload_size_bytes: u64,
    pub tags: Vec<String>,
}

#[derive(Clone, Copy, Debug, PartialEq, Eq, Structural)]
pub enum Kind {
    ToolCall,
    ResourceRead,
    ResourceList,
    PromptGet,
    Completion,
    Notification,
    SandboxDecision,
    SessionEvent,
    Unknown,
}

#[derive(Clone, Copy, Debug, PartialEq, Eq, Structural)]
pub enum Actor {
    Agent,
    User,
    System,
    Sandbox,
    Unknown,
}

#[derive(Clone, Copy, Debug, PartialEq, Eq, Structural)]
pub enum Outcome {
    Success,
    Error,
    Denied,
    Timeout,
    Cancelled,
    Unknown,
}

pub struct ActionError {
    pub code: String,
    pub message: String,
    pub source: String,
    pub data: Option<JsonValue>,
}

pub struct SandboxDecision {
    pub verdict: String,
    pub rule_id: String,
    pub reason: String,
    pub mode: String,
    pub prompted: bool,
    pub prompt_resolution: Option<String>,
}

/// Session statistics. `by_outcome` and `by_kind` are ordered by key, as a
/// sorted map iterates. The two averages are floating-point values computed
/// outside this library and held here as their IEEE-754 bit patterns.
pub struct Stats {
    pub total_actions: u64,
    pub by_outcome: Vec<(String, u64)>,
    pub by_kind: Vec<(String, u64)>,
    pub denied_count: u64,
    pub error_count: u64,
    pub duration_ms: u64,
    pub avg_action_ms_bits: u64,
    pub p95_action_ms_bits: u64,
    pub bytes_in: u64,
    pub bytes_out: u64,
}

/// One line of an NDJSON session file.
pub enum NdjsonRecord {
    Meta { schema_version: String, session: SessionMeta },
    Action { action: Action },
    End { ended_at: WallTime, stats: Stats },
}

} // verus!
