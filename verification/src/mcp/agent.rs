//! Agent action capture: classification of JSON-RPC frames and stderr lines
//! into semantic [`AgentAction`]s, and the per-server ring buffer of recent
//! actions.

use vstd::prelude::*;

use crate::ids::{new_uuid_string, now_wall};
use crate::json::{clone_opt_json, json_as_str, json_get, opt_json, Json, JsonValue};
use crate::json_decode::{decode_chars, decoded_line};
use crate::lowercase::{to_lowercase, unicode_lower};
use crate::session::types::WallTime;
use crate::mcp::ring::{last_n, ring_push, RingMap};
use crate::text::{
    chars_contains, chars_of, chars_starts_with, clone_opt_string, contains, lower_ascii, owned,
    starts_with, str_contains, str_eq, str_starts_with, string_of, to_ascii_lowercase_chars,
    trim_start, trim_start_chars,
};

verus! {

#[derive(Clone, Copy, Debug, PartialEq, Eq, Structural)]
pub enum ActionKind {
    FsRead,
    FsWrite,
    BrowserOpen,
    HttpFetch,
    TerminalExec,
    MemoryStore,
    Search,
    ToolCall,
    Other,
}

#[derive(Clone, Copy, Debug, PartialEq, Eq, Structural)]
pub enum ActionStatus {
    /// Request seen by the proxy, not yet completed.
    Pending,
    /// Server returned a successful response.
    Success,
    /// Blocked by policy (sandbox or proxy permission check).
    Denied,
    /// Server returned an error response.
    Failed,
    /// Client cancelled before completion.
    Cancelled,
}

/// A semantic action surfaced to the activity view.
pub struct AgentAction {
    pub id: String,
    pub server_id: String,
    pub kind: ActionKind,
    pub tool_name: String,
    /// Short summary of what was acted on — path / URL / command.
    pub target: Option<String>,
    /// The JSON-RPC `params.arguments`.
    pub params: Option<JsonValue>,
    /// The JSON-RPC request id, if any.
    pub request_id: Option<JsonValue>,
    pub status: ActionStatus,
    pub denied_reason: Option<String>,
    pub error: Option<String>,
    pub latency_ms: Option<u64>,
    pub timestamp: WallTime,
}

/// The model of an [`AgentAction`].
pub struct AgentActionView {
    pub id: Seq<char>,
    pub server_id: Seq<char>,
    pub kind: ActionKind,
    pub tool_name: Seq<char>,
    pub target: Option<Seq<char>>,
    pub params: Option<Json>,
    pub request_id: Option<Json>,
    pub status: ActionStatus,
    pub denied_reason: Option<Seq<char>>,
    pub error: Option<Seq<char>>,
    pub latency_ms: Option<u64>,
    pub timestamp: WallTime,
}

pub open spec fn opt_str(s: Option<String>) -> Option<Seq<char>> {
    match s {
        Some(x) => Some(x@),
        None => None,
    }
}

impl View for AgentAction {
    type V = AgentActionView;

    open spec fn view(&self) -> AgentActionView {
        AgentActionView {
            id: self.id@,
            server_id: self.server_id@,
            kind: self.kind,
            tool_name: self.tool_name@,
            target: opt_str(self.target),
            params: opt_json(self.params),
            request_id: opt_json(self.request_id),
            status: self.status,
            denied_reason: opt_str(self.denied_reason),
            error: opt_str(self.error),
            latency_ms: self.latency_ms,
            timestamp: self.timestamp,
        }
    }
}

impl Clone for AgentAction {
    fn clone(&self) -> (out: Self)
        ensures
            out@ == self@,
    {
        AgentAction {
            id: self.id.clone(),
            server_id: self.server_id.clone(),
            kind: self.kind,
            tool_name: self.tool_name.clone(),
            target: clone_opt_string(&self.target),
            params: clone_opt_json(&self.params),
            request_id: clone_opt_json(&self.request_id),
            status: self.status,
            denied_reason: clone_opt_string(&self.denied_reason),
            error: clone_opt_string(&self.error),
            latency_ms: self.latency_ms,
            timestamp: self.timestamp,
        }
    }
}

// ---------------------------------------------------------------------------
// Tool classification
// ---------------------------------------------------------------------------

/// Whether `s` equals one of `options`.
pub open spec fn matches_any_spec(s: Seq<char>, options: Seq<Seq<char>>) -> bool {
    exists|i: int| 0 <= i < options.len() && #[trigger] options[i] == s
}

pub open spec fn str_views(v: Seq<&str>) -> Seq<Seq<char>> {
    v.map_values(|s: &str| s@)
}

/// Whether `haystack` equals one of `options`.
fn matches_any(haystack: &str, options: &Vec<&str>) -> (r: bool)
    ensures
        r == matches_any_spec(haystack@, str_views(options@)),
{
    let mut i: usize = 0;
    while i < options.len()
        invariant
            i <= options.len(),
            forall|j: int| 0 <= j < i ==> options@[j]@ != haystack@,
        decreases options.len() - i,
    {
        if str_eq(haystack, options[i]) {
            assert(str_views(options@)[i as int] == haystack@);
            return true;
        }
        i = i + 1;
    }
    assert forall|j: int| 0 <= j < options.len() implies #[trigger] str_views(options@)[j] != haystack@ by {
        assert(str_views(options@)[j] == options@[j]@);
    }
    false
}

/// The first of `keys` under which `args` holds a string, and that string.
pub open spec fn pick_str_spec(args: Option<Json>, keys: Seq<Seq<char>>) -> Option<Seq<char>>
    decreases keys.len(),
{
    match args {
        None => None,
        Some(a) => if keys.len() == 0 {
            None
        } else {
            match json_as_str(json_get(a, keys[0])) {
                Some(s) => Some(s),
                None => pick_str_spec(args, keys.drop_first()),
            }
        },
    }
}

fn opt_ref_json(v: &Option<JsonValue>) -> (r: Option<&JsonValue>)
    ensures
        opt_json(*v) == match r { Some(x) => Some(x@), None => None },
{
    match v {
        Some(x) => Some(x),
        None => None,
    }
}

/// The string under the first of `keys` that holds one.
fn pick_str(args: Option<&JsonValue>, keys: &Vec<&str>) -> (r: Option<String>)
    ensures
        opt_str(r) == pick_str_spec(
            match args { Some(a) => Some(a@), None => None },
            str_views(keys@),
        ),
{
    let ghost ga: Option<Json> = match args { Some(a) => Some(a@), None => None };
    let a = match args {
        Some(a) => a,
        None => return None,
    };
    let mut i: usize = 0;
    assert(str_views(keys@).skip(0) =~= str_views(keys@));
    while i < keys.len()
        invariant
            i <= keys.len(),
            ga == Some(a@),
            ga == match args { Some(x) => Some(x@), None => None },
            pick_str_spec(ga, str_views(keys@)) == pick_str_spec(ga, str_views(keys@).skip(i as int)),
        decreases keys.len() - i,
    {
        let ghost rest = str_views(keys@).skip(i as int);
        assert(rest[0] == keys@[i as int]@);
        match a.get(keys[i]) {
            Some(v) => match v.as_str() {
                Some(s) => {
                    assert(json_as_str(json_get(a@, rest[0])) == Some(s@));
                    assert(pick_str_spec(ga, rest) == Some(s@));
                    assert(pick_str_spec(ga, str_views(keys@)) == Some(s@));
                    let out = owned(s);
                    assert(opt_str(Some(out)) == Some(s@));
                    return Some(out);
                },
                None => {},
            },
            None => {},
        }
        assert(rest.drop_first() == str_views(keys@).skip(i + 1));
        i = i + 1;
    }
    assert(str_views(keys@).skip(i as int).len() == 0);
    None
}

/// The `name` of the first entity under `entities`, for memory tools.
pub open spec fn memory_target_spec(args: Option<Json>) -> Option<Seq<char>> {
    match args {
        Some(a) => match json_get(a, "entities"@) {
            Some(Json::Array(items)) => if items.len() > 0 {
                json_as_str(json_get(items[0], "name"@))
            } else {
                None
            },
            _ => None,
        },
        None => None,
    }
}

fn memory_target(args: Option<&JsonValue>) -> (r: Option<String>)
    ensures
        opt_str(r) == memory_target_spec(match args { Some(a) => Some(a@), None => None }),
{
    let a = match args {
        Some(a) => a,
        None => return None,
    };
    match a.get("entities") {
        Some(e) => match e {
            JsonValue::Array(items) => {
                proof {
                    crate::json::lemma_models_of(items@);
                }
                if items.len() > 0 {
                    match items[0].get("name") {
                        Some(n) => match n.as_str() {
                            Some(s) => Some(owned(s)),
                            None => None,
                        },
                        None => None,
                    }
                } else {
                    None
                }
            },
            _ => None,
        },
        None => None,
    }
}

pub open spec fn read_names() -> Seq<Seq<char>> {
    seq![
        "read_file"@,
        "read_text_file"@,
        "read_multiple_files"@,
        "list_directory"@,
        "directory_tree"@,
        "get_file_info"@,
    ]
}

pub open spec fn write_names() -> Seq<Seq<char>> {
    seq!["write_file"@, "edit_file"@, "create_directory"@, "move_file"@]
}

pub open spec fn is_read_tool(n: Seq<char>) -> bool {
    matches_any_spec(n, read_names()) || (contains(n, "read"@) && (contains(n, "file"@) || contains(
        n,
        "dir"@,
    )))
}

pub open spec fn is_write_tool(n: Seq<char>) -> bool {
    matches_any_spec(n, write_names()) || starts_with(n, "write_"@) || starts_with(n, "edit_"@)
}

pub open spec fn is_browser_tool(n: Seq<char>) -> bool {
    contains(n, "puppeteer"@) || contains(n, "browser"@) || contains(n, "screenshot"@) || contains(
        n,
        "navigate"@,
    )
}

pub open spec fn is_fetch_tool(n: Seq<char>) -> bool {
    n == "fetch"@ || starts_with(n, "http_"@) || contains(n, "get_url"@)
}

pub open spec fn is_exec_tool(n: Seq<char>) -> bool {
    contains(n, "execute"@) || contains(n, "shell"@) || n == "bash"@ || n == "run_command"@
}

pub open spec fn is_memory_tool(n: Seq<char>) -> bool {
    contains(n, "memory"@) || contains(n, "entities"@) || contains(n, "observations"@)
}

pub open spec fn is_search_tool(n: Seq<char>) -> bool {
    contains(n, "search"@) || n == "google"@ || n == "brave_web_search"@
}

/// The kind of a tool (by its lower-cased name) and its target argument.
pub open spec fn classify_tool_spec(name: Seq<char>, args: Option<Json>) -> (ActionKind, Option<Seq<char>>) {
    let n = unicode_lower(name);
    if is_read_tool(n) {
        (ActionKind::FsRead, pick_str_spec(args, seq!["path"@, "filepath"@]))
    } else if is_write_tool(n) {
        (ActionKind::FsWrite, pick_str_spec(args, seq!["path"@, "dst_path"@, "destination"@, "filepath"@]))
    } else if is_browser_tool(n) {
        (ActionKind::BrowserOpen, pick_str_spec(args, seq!["url"@]))
    } else if is_fetch_tool(n) {
        (ActionKind::HttpFetch, pick_str_spec(args, seq!["url"@]))
    } else if is_exec_tool(n) {
        (ActionKind::TerminalExec, pick_str_spec(args, seq!["command"@, "cmd"@]))
    } else if is_memory_tool(n) {
        (ActionKind::MemoryStore, memory_target_spec(args))
    } else if is_search_tool(n) {
        (ActionKind::Search, pick_str_spec(args, seq!["query"@, "q"@]))
    } else {
        (ActionKind::ToolCall, None)
    }
}

/// A write-class tool (and no read-class one) is a filesystem write whose
/// target is the string under the first of `path`, `dst_path`,
/// `destination` and `filepath` that holds a string, and none when none
/// does: a move with only a `destination` targets that destination.
pub proof fn lemma_write_tool_target(name: Seq<char>, args: Json)
    requires
        is_write_tool(unicode_lower(name)),
        !is_read_tool(unicode_lower(name)),
    ensures
        classify_tool_spec(name, Some(args)).0 == ActionKind::FsWrite,
        classify_tool_spec(name, Some(args)).1 == match json_as_str(json_get(args, "path"@)) {
            Some(p) => Some(p),
            None => match json_as_str(json_get(args, "dst_path"@)) {
                Some(p) => Some(p),
                None => match json_as_str(json_get(args, "destination"@)) {
                    Some(p) => Some(p),
                    None => json_as_str(json_get(args, "filepath"@)),
                },
            },
        },
{
    let k4 = seq!["path"@, "dst_path"@, "destination"@, "filepath"@];
    assert(k4[0] == "path"@);
    assert(k4.drop_first() =~= seq!["dst_path"@, "destination"@, "filepath"@]);
    assert(k4.drop_first().drop_first() =~= seq!["destination"@, "filepath"@]);
    assert(k4.drop_first().drop_first().drop_first() =~= seq!["filepath"@]);
    assert(k4.drop_first().drop_first().drop_first().drop_first() =~= Seq::<Seq<char>>::empty());
    reveal_with_fuel(pick_str_spec, 5);
}

/// The target of each other class of tool: a read targets the first string
/// under `path` or `filepath`; a browser tool or a fetch the string under
/// `url`; command execution the first string under `command` or `cmd`; a
/// search the first string under `query` or `q`; an unrecognised tool has
/// no target.
pub proof fn lemma_tool_targets(name: Seq<char>, args: Json)
    ensures
        ({
            let n = unicode_lower(name);
            let c = classify_tool_spec(name, Some(args));
            let first2 = |a: Seq<char>, b: Seq<char>| match json_as_str(json_get(args, a)) {
                Some(p) => Some(p),
                None => json_as_str(json_get(args, b)),
            };
            &&& is_read_tool(n) ==> c == (ActionKind::FsRead, first2("path"@, "filepath"@))
            &&& !is_read_tool(n) && !is_write_tool(n) && is_browser_tool(n) ==> c == (ActionKind::BrowserOpen,
                json_as_str(json_get(args, "url"@)))
            &&& !is_read_tool(n) && !is_write_tool(n) && !is_browser_tool(n) && is_fetch_tool(n) ==> c == (
                ActionKind::HttpFetch,
                json_as_str(json_get(args, "url"@)),
            )
            &&& !is_read_tool(n) && !is_write_tool(n) && !is_browser_tool(n) && !is_fetch_tool(n) && is_exec_tool(n)
                ==> c == (ActionKind::TerminalExec, first2("command"@, "cmd"@))
            &&& !is_read_tool(n) && !is_write_tool(n) && !is_browser_tool(n) && !is_fetch_tool(n) && !is_exec_tool(n)
                && !is_memory_tool(n) && is_search_tool(n) ==> c == (ActionKind::Search, first2("query"@, "q"@))
            &&& !is_read_tool(n) && !is_write_tool(n) && !is_browser_tool(n) && !is_fetch_tool(n) && !is_exec_tool(n)
                && !is_memory_tool(n) && !is_search_tool(n) ==> c == (ActionKind::ToolCall, None::<Seq<char>>)
        }),
{
    let k2 = seq!["path"@, "filepath"@];
    assert(k2.drop_first() =~= seq!["filepath"@]);
    assert(k2.drop_first().drop_first() =~= Seq::<Seq<char>>::empty());
    let ku = seq!["url"@];
    assert(ku.drop_first() =~= Seq::<Seq<char>>::empty());
    let kc = seq!["command"@, "cmd"@];
    assert(kc.drop_first() =~= seq!["cmd"@]);
    assert(kc.drop_first().drop_first() =~= Seq::<Seq<char>>::empty());
    let kq = seq!["query"@, "q"@];
    assert(kq.drop_first() =~= seq!["q"@]);
    assert(kq.drop_first().drop_first() =~= Seq::<Seq<char>>::empty());
    reveal_with_fuel(pick_str_spec, 3);
}

/// `move_file` (in any letter case) is a filesystem write, so its target
/// is found as [`lemma_write_tool_target`] says.
pub proof fn lemma_move_file_is_a_write(name: Seq<char>, args: Json)
    requires
        unicode_lower(name) == "move_file"@,
    ensures
        is_write_tool(unicode_lower(name)),
        !is_read_tool(unicode_lower(name)),
        classify_tool_spec(name, Some(args)).0 == ActionKind::FsWrite,
{
    let n = unicode_lower(name);
    reveal_strlit("move_file");
    reveal_strlit("read");
    reveal_strlit("read_file");
    reveal_strlit("read_text_file");
    reveal_strlit("read_multiple_files");
    reveal_strlit("list_directory");
    reveal_strlit("directory_tree");
    reveal_strlit("get_file_info");
    reveal_strlit("write_file");
    reveal_strlit("edit_file");
    reveal_strlit("create_directory");
    assert(write_names()[3] == n);
    assert(matches_any_spec(n, write_names()));
    assert forall|i: int| 0 <= i < read_names().len() implies #[trigger] read_names()[i] != n by {
        if i == 0 {
            assert(read_names()[0][0] != n[0]);
        } else {
            assert(read_names()[i].len() != n.len());
        }
    }
    assert(!matches_any_spec(n, read_names()));
    assert forall|i: int| 0 <= i && i + 4 <= n.len() implies #[trigger] n.subrange(i, i + 4) != "read"@ by {
        assert(n.subrange(i, i + 4)[0] == n[i]);
        assert(n[i] != 'r');
    }
    assert(!contains(n, "read"@));
    lemma_write_tool_target(name, args);
}

/// Maps a tool name and its arguments to an [`ActionKind`] and a target
/// string; anything unrecognised is a generic `ToolCall` without target.
pub fn classify_tool(name: &str, args: Option<&JsonValue>) -> (r: (ActionKind, Option<String>))
    ensures
        r.0 == classify_tool_spec(name@, match args { Some(a) => Some(a@), None => None }).0,
        opt_str(r.1) == classify_tool_spec(name@, match args { Some(a) => Some(a@), None => None }).1,
{
    let lowered = to_lowercase(name);
    let n = lowered.as_str();
    let read = vec!["read_file", "read_text_file", "read_multiple_files", "list_directory", "directory_tree", "get_file_info"];
    assert(str_views(read@) =~= read_names());
    if matches_any(n, &read) || (str_contains(n, "read") && (str_contains(n, "file") || str_contains(n, "dir"))) {
        let keys = vec!["path", "filepath"];
        assert(str_views(keys@) =~= seq!["path"@, "filepath"@]);
        return (ActionKind::FsRead, pick_str(args, &keys));
    }
    let write = vec!["write_file", "edit_file", "create_directory", "move_file"];
    assert(str_views(write@) =~= write_names());
    if matches_any(n, &write) || str_starts_with(n, "write_") || str_starts_with(n, "edit_") {
        let keys = vec!["path", "dst_path", "destination", "filepath"];
        assert(str_views(keys@) =~= seq!["path"@, "dst_path"@, "destination"@, "filepath"@]);
        return (ActionKind::FsWrite, pick_str(args, &keys));
    }
    if str_contains(n, "puppeteer") || str_contains(n, "browser") || str_contains(n, "screenshot") || str_contains(n, "navigate") {
        let keys = vec!["url"];
        assert(str_views(keys@) =~= seq!["url"@]);
        return (ActionKind::BrowserOpen, pick_str(args, &keys));
    }
    if str_eq(n, "fetch") || str_starts_with(n, "http_") || str_contains(n, "get_url") {
        let keys = vec!["url"];
        assert(str_views(keys@) =~= seq!["url"@]);
        return (ActionKind::HttpFetch, pick_str(args, &keys));
    }
    if str_contains(n, "execute") || str_contains(n, "shell") || str_eq(n, "bash") || str_eq(n, "run_command") {
        let keys = vec!["command", "cmd"];
        assert(str_views(keys@) =~= seq!["command"@, "cmd"@]);
        return (ActionKind::TerminalExec, pick_str(args, &keys));
    }
    if str_contains(n, "memory") || str_contains(n, "entities") || str_contains(n, "observations") {
        return (ActionKind::MemoryStore, memory_target(args));
    }
    if str_contains(n, "search") || str_eq(n, "google") || str_eq(n, "brave_web_search") {
        let keys = vec!["query", "q"];
        assert(str_views(keys@) =~= seq!["query"@, "q"@]);
        return (ActionKind::Search, pick_str(args, &keys));
    }
    (ActionKind::ToolCall, None)
}

// ---------------------------------------------------------------------------
// JSON-RPC classification
// ---------------------------------------------------------------------------

/// What the classifier reads of a JSON-RPC frame: the kind, tool name,
/// target, arguments and request id of the action it yields, or `None` when
/// the line is not a `tools/call` envelope (notifications and other
/// plumbing carry no tool call). `parsed` is
/// what the trimmed line decodes to as JSON (`None` when it does not decode).
pub open spec fn jsonrpc_fields(line: Seq<char>, parsed: Option<Json>) -> Option<(ActionKind, Seq<char>, Option<Seq<char>>, Option<Json>, Option<Json>)> {
    if !starts_with(trim_start(line), "{"@) {
        None
    } else {
        match parsed {
            None => None,
            Some(v) => match json_as_str(json_get(v, "method"@)) {
                None => None,
                Some(method) => if method != "tools/call"@ {
                    None
                } else {
                    let params = json_get(v, "params"@);
                    let tool = match params {
                        Some(p) => match json_as_str(json_get(p, "name"@)) {
                            Some(n) => n,
                            None => method,
                        },
                        None => method,
                    };
                    let args = match params {
                        Some(p) => json_get(p, "arguments"@),
                        None => None,
                    };
                    let classified = classify_tool_spec(tool, args);
                    Some((classified.0, tool, classified.1, args, json_get(v, "id"@)))
                },
            },
        }
    }
}

fn clone_opt_ref(v: Option<&JsonValue>) -> (r: Option<JsonValue>)
    ensures
        opt_json(r) == match v { Some(x) => Some(x@), None => None },
{
    match v {
        Some(x) => Some(x.clone()),
        None => None,
    }
}

/// Classifies one line of JSON-RPC traffic as an agent action: the line,
/// with leading whitespace removed, is decoded as JSON, and the rest is
/// [`classify_decoded`].
pub fn classify_jsonrpc(line: &str, server_id: &str) -> (r: Option<AgentAction>)
    ensures
        match r {
            Some(a) => jsonrpc_fields(line@, decoded_line(line@))
                == Some((a.kind, a.tool_name@, opt_str(a.target), opt_json(a.params), opt_json(a.request_id)))
                && a.server_id@ == server_id@ && a.status == ActionStatus::Success
                && a.denied_reason is None && a.error is None && a.latency_ms is None,
            None => jsonrpc_fields(line@, decoded_line(line@)) is None,
        },
{
    let lc = chars_of(line);
    let trimmed = trim_start_chars(&lc);
    let brace = chars_of("{");
    if !chars_starts_with(&trimmed, &brace) {
        return None;
    }
    let parsed = decode_chars(&trimmed);
    let value: Option<&JsonValue> = match &parsed {
        Some(v) => Some(v),
        None => None,
    };
    classify_decoded(line, value, server_id)
}

/// Classifies one line of JSON-RPC traffic, given what the line, with
/// leading whitespace removed, decodes to (`parsed`; `None` when it is not
/// JSON). Lines that do not start with `{`, values without a string
/// `method`, and envelopes that carry no tool call (any method but
/// `tools/call`) yield `None`. The action gets a fresh id, the current time
/// and status `Success`.
pub fn classify_decoded(line: &str, parsed: Option<&JsonValue>, server_id: &str) -> (r: Option<AgentAction>)
    ensures
        match r {
            Some(a) => jsonrpc_fields(line@, match parsed { Some(v) => Some(v@), None => None })
                == Some((a.kind, a.tool_name@, opt_str(a.target), opt_json(a.params), opt_json(a.request_id)))
                && a.server_id@ == server_id@ && a.status == ActionStatus::Success
                && a.denied_reason is None && a.error is None && a.latency_ms is None,
            None => jsonrpc_fields(line@, match parsed { Some(v) => Some(v@), None => None }) is None,
        },
{
    let lc = chars_of(line);
    let trimmed = trim_start_chars(&lc);
    let brace = chars_of("{");
    if !chars_starts_with(&trimmed, &brace) {
        return None;
    }
    let value = match parsed {
        Some(v) => v,
        None => return None,
    };
    let method: &str = match value.get("method") {
        Some(m) => match m.as_str() {
            Some(s) => s,
            None => return None,
        },
        None => return None,
    };
    if !str_eq(method, "tools/call") {
        return None;
    }
    let params = value.get("params");
    let tool_name: String = match params {
        Some(p) => match p.get("name") {
            Some(n) => match n.as_str() {
                Some(s) => owned(s),
                None => owned(method),
            },
            None => owned(method),
        },
        None => owned(method),
    };
    let args_ref: Option<&JsonValue> = match params {
        Some(p) => p.get("arguments"),
        None => None,
    };
    let args = clone_opt_ref(args_ref);
    let request_id = clone_opt_ref(value.get("id"));
    let (kind, target) = classify_tool(tool_name.as_str(), args_ref);
    Some(AgentAction {
        id: new_uuid_string(),
        server_id: owned(server_id),
        kind,
        tool_name,
        target,
        params: args,
        request_id,
        status: ActionStatus::Success,
        denied_reason: None,
        error: None,
        latency_ms: None,
        timestamp: now_wall(),
    })
}

/// `s` cut to `max` characters followed by `…` when longer than `max`.
pub open spec fn truncate_spec(s: Seq<char>, max: int) -> Seq<char> {
    if s.len() <= max {
        s
    } else {
        s.take(max).push('\u{2026}')
    }
}

/// `s` unchanged when it has at most `max` characters, else its first `max`
/// characters followed by an ellipsis.
pub fn truncate_for_target(s: &str, max: usize) -> (r: String)
    ensures
        r@ == truncate_spec(s@, max as int),
{
    let cs = chars_of(s);
    if cs.len() <= max {
        owned(s)
    } else {
        let mut out = crate::text::slice_chars(&cs, 0, max);
        out.push('\u{2026}');
        string_of(&out)
    }
}

/// The kind and reason of a denial marker found in a stderr line.
pub open spec fn denial_marker(line: Seq<char>) -> Option<(ActionKind, Seq<char>)> {
    let lower = lower_ascii(line);
    if contains(lower, "sandbox"@) && contains(lower, "deny"@) {
        Some((ActionKind::Other, "Blocked by sandbox policy"@))
    } else if contains(lower, "operation not permitted"@) {
        Some((ActionKind::Other, "Operation not permitted (sandbox)"@))
    } else if contains(lower, "eperm"@) {
        Some((ActionKind::Other, "EPERM: blocked"@))
    } else if contains(lower, "network is unreachable"@) || (contains(lower, "connect"@)
        && contains(lower, "refused"@) && contains(lower, "sandbox"@)) {
        Some((ActionKind::HttpFetch, "Network blocked by sandbox"@))
    } else {
        None
    }
}

/// Detects sandbox / permission denials in a stderr line and yields a
/// `Denied` action whose target is the line cut to 140 characters.
pub fn classify_sandbox_denial(line: &str, server_id: &str) -> (r: Option<AgentAction>)
    ensures
        match r {
            Some(a) => denial_marker(line@) == Some((a.kind, a.denied_reason->0@))
                && a.denied_reason is Some
                && a.server_id@ == server_id@ && a.tool_name@ == "sandbox"@
                && opt_str(a.target) == Some(truncate_spec(line@, 140))
                && a.params is None && a.request_id is None
                && a.status == ActionStatus::Denied && a.error is None && a.latency_ms is None,
            None => denial_marker(line@) is None,
        },
{
    let lc = chars_of(line);
    let lower = to_ascii_lowercase_chars(&lc);
    let k_sandbox = chars_of("sandbox");
    let (kind, reason): (ActionKind, &str) = if chars_contains(&lower, &k_sandbox)
        && chars_contains(&lower, &chars_of("deny")) {
        (ActionKind::Other, "Blocked by sandbox policy")
    } else if chars_contains(&lower, &chars_of("operation not permitted")) {
        (ActionKind::Other, "Operation not permitted (sandbox)")
    } else if chars_contains(&lower, &chars_of("eperm")) {
        (ActionKind::Other, "EPERM: blocked")
    } else if chars_contains(&lower, &chars_of("network is unreachable")) || (chars_contains(
        &lower,
        &chars_of("connect"),
    ) && chars_contains(&lower, &chars_of("refused")) && chars_contains(&lower, &k_sandbox)) {
        (ActionKind::HttpFetch, "Network blocked by sandbox")
    } else {
        return None;
    };
    Some(AgentAction {
        id: new_uuid_string(),
        server_id: owned(server_id),
        kind,
        tool_name: owned("sandbox"),
        target: Some(truncate_for_target(line, 140)),
        params: None,
        request_id: None,
        status: ActionStatus::Denied,
        denied_reason: Some(owned(reason)),
        error: None,
        latency_ms: None,
        timestamp: now_wall(),
    })
}

// ---------------------------------------------------------------------------
// Per-server action buffer
// ---------------------------------------------------------------------------

pub open spec fn action_views(q: Seq<AgentAction>) -> Seq<AgentActionView> {
    q.map_values(|a: AgentAction| a@)
}

/// Whether some action in `q` has id `id`.
pub open spec fn has_action_id(q: Seq<AgentActionView>, id: Seq<char>) -> bool {
    exists|i: int| 0 <= i < q.len() && #[trigger] q[i].id == id
}

/// The first position in `q` of an action with id `id`.
pub open spec fn first_action_index(q: Seq<AgentActionView>, id: Seq<char>) -> int {
    choose|i: int|
        0 <= i < q.len() && #[trigger] q[i].id == id && forall|j: int| 0 <= j < i ==> #[trigger] q[j].id != id
}

proof fn lemma_first_action_index(q: Seq<AgentActionView>, id: Seq<char>, w: int)
    requires
        0 <= w < q.len(),
        q[w].id == id,
        forall|j: int| 0 <= j < w ==> #[trigger] q[j].id != id,
    ensures
        first_action_index(q, id) == w,
{
    let c = first_action_index(q, id);
    assert(0 <= c < q.len() && q[c].id == id && forall|j: int| 0 <= j < c ==> #[trigger] q[j].id != id);
    if c < w {
        assert(q[c].id != id);
    } else if c > w {
        assert(q[w].id != id);
    }
}

/// Per-server ring buffer of recent actions.
pub struct ActionSink {
    buffers: RingMap<AgentAction>,
}

impl ActionSink {
    pub closed spec fn wf(&self) -> bool {
        self.buffers.wf()
    }

    /// How many actions a server's buffer keeps.
    pub closed spec fn capacity(&self) -> int {
        self.buffers.cap()
    }

    /// The buffered actions of a server, oldest first.
    pub closed spec fn actions(&self, server_id: Seq<char>) -> Seq<AgentActionView> {
        action_views(self.buffers.entries(server_id))
    }

    pub fn new(capacity_per_server: usize) -> (r: Self)
        ensures
            r.wf(),
            r.capacity() == capacity_per_server,
            forall|k: Seq<char>| #[trigger] r.actions(k) == Seq::<AgentActionView>::empty(),
    {
        let r = ActionSink { buffers: RingMap::new(capacity_per_server) };
        assert forall|k: Seq<char>| #[trigger] r.actions(k) == Seq::<AgentActionView>::empty() by {
            assert(action_views(r.buffers.entries(k)) =~= Seq::<AgentActionView>::empty());
        }
        r
    }

    /// Appends a copy of `action` to its server's buffer, dropping the oldest
    /// entry when the buffer is full.
    pub fn push(&mut self, action: &AgentAction)
        requires
            old(self).wf(),
        ensures
            final(self).wf(),
            final(self).capacity() == old(self).capacity(),
            final(self).actions(action.server_id@) == ring_push(
                old(self).actions(action.server_id@),
                action@,
                old(self).capacity(),
            ),
            forall|k: Seq<char>| k != action.server_id@ ==> #[trigger] final(self).actions(k) == old(self).actions(k),
    {
        let c = action.clone();
        let ghost q = self.buffers.entries(action.server_id@);
        self.buffers.push(action.server_id.as_str(), c);
        assert(action_views(ring_push(q, c, self.buffers.cap())) =~= ring_push(
            action_views(q),
            action@,
            self.buffers.cap(),
        ));
    }

    /// Replaces the first buffered action with the same id as `action`, or
    /// appends `action` (as [`ActionSink::push`] does) when there is none.
    pub fn push_or_update(&mut self, action: &AgentAction)
        requires
            old(self).wf(),
        ensures
            final(self).wf(),
            final(self).capacity() == old(self).capacity(),
            has_action_id(old(self).actions(action.server_id@), action.id@) ==> final(self).actions(
                action.server_id@,
            ) == old(self).actions(action.server_id@).update(
                first_action_index(old(self).actions(action.server_id@), action.id@),
                action@,
            ),
            !has_action_id(old(self).actions(action.server_id@), action.id@) ==> final(self).actions(
                action.server_id@,
            ) == ring_push(old(self).actions(action.server_id@), action@, old(self).capacity()),
            forall|k: Seq<char>| k != action.server_id@ ==> #[trigger] final(self).actions(k) == old(self).actions(k),
    {
        let ghost q = self.buffers.entries(action.server_id@);
        let ghost qv = action_views(q);
        let mut pos: Option<usize> = None;
        match self.buffers.get(action.server_id.as_str()) {
            Some(ring) => {
                let mut i: usize = 0;
                let mut found = false;
                while i < ring.len() && !found
                    invariant
                        i <= ring@.len(),
                        ring@ == q,
                        qv == action_views(q),
                        found ==> (pos matches Some(p) && p < q.len() && p == first_action_index(qv, action.id@)
                            && has_action_id(qv, action.id@)),
                        !found ==> pos is None && forall|j: int| 0 <= j < i ==> #[trigger] qv[j].id != action.id@,
                    decreases ring.len() - i + (if found { 0int } else { 1int }),
                {
                    assert(qv[i as int].id == ring@[i as int].id@);
                    if str_eq(ring[i].id.as_str(), action.id.as_str()) {
                        pos = Some(i);
                        found = true;
                        proof {
                            lemma_first_action_index(qv, action.id@, i as int);
                        }
                    } else {
                        i = i + 1;
                    }
                }
            },
            None => {
                assert(qv =~= Seq::<AgentActionView>::empty());
            },
        }
        let c = action.clone();
        match pos {
            Some(p) => {
                self.buffers.set_at(action.server_id.as_str(), p, c);
                assert(action_views(q.update(p as int, c)) =~= qv.update(p as int, action@));
            },
            None => {
                self.buffers.push(action.server_id.as_str(), c);
                assert(action_views(ring_push(q, c, self.buffers.cap())) =~= ring_push(
                    qv,
                    action@,
                    self.buffers.cap(),
                ));
            },
        }
    }

    /// The last `limit` buffered actions of a server, oldest first.
    pub fn snapshot(&self, server_id: &str, limit: usize) -> (r: Vec<AgentAction>)
        requires
            self.wf(),
        ensures
            action_views(r@) == last_n(self.actions(server_id@), limit as int),
    {
        let mut out: Vec<AgentAction> = Vec::new();
        match self.buffers.get(server_id) {
            Some(q) => {
                let ghost qv = action_views(q@);
                let start = if limit >= q.len() { 0 } else { q.len() - limit };
                let mut i: usize = start;
                while i < q.len()
                    invariant
                        start <= i <= q@.len(),
                        qv == action_views(q@),
                        action_views(out@) == qv.subrange(start as int, i as int),
                    decreases q.len() - i,
                {
                    let c = q[i].clone();
                    assert(c@ == qv[i as int]);
                    let ghost prev = out@;
                    out.push(c);
                    assert(out@ == prev.push(c));
                    assert(action_views(out@) =~= action_views(prev).push(c@));
                    i = i + 1;
                    assert(action_views(out@) =~= qv.subrange(start as int, i as int));
                }
                assert(qv.subrange(start as int, qv.len() as int) =~= last_n(qv, limit as int));
            },
            None => {
                assert(action_views(out@) =~= last_n(Seq::<AgentActionView>::empty(), limit as int));
            },
        }
        out
    }

    /// Drops every buffered action of a server.
    pub fn clear(&mut self, server_id: &str)
        requires
            old(self).wf(),
        ensures
            final(self).wf(),
            final(self).capacity() == old(self).capacity(),
            final(self).actions(server_id@) == Seq::<AgentActionView>::empty(),
            forall|k: Seq<char>| k != server_id@ ==> #[trigger] final(self).actions(k) == old(self).actions(k),
    {
        self.buffers.remove_key(server_id);
        assert(action_views(Seq::<AgentAction>::empty()) =~= Seq::<AgentActionView>::empty());
    }
}

} // verus!
