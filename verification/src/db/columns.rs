//! Reading a server or a permission back from the text its stored columns
//! hold: JSON lists and maps decoded with serde_json, times parsed as
//! RFC 3339 with chrono, names mapped to transports and statuses.

use vstd::prelude::*;

use crate::db::models::{distinct_env_names, status_from_name, transport_from_name, McpServer, ServerStatus, Transport};
use crate::db::permissions::PersistedPermission;
use crate::session::types::WallTime;

verus! {

/// What `serde_json::from_str::<Vec<String>>` gives for `text`: the
/// strings of a JSON array of strings, or `None` for any other text.
pub uninterp spec fn json_strings(text: Seq<char>) -> Option<Seq<Seq<char>>>;

/// What `serde_json::from_str::<BTreeMap<String, String>>` gives for
/// `text`: the entries of a JSON object of strings in the map's order (by
/// name; a repeated name keeps its last value), or `None` for any other
/// text.
pub uninterp spec fn json_string_pairs(text: Seq<char>) -> Option<Seq<(Seq<char>, Seq<char>)>>;

/// What `chrono::DateTime::parse_from_rfc3339` gives for `text`, as the
/// UTC instant it denotes, or `None` when the text is not RFC 3339.
pub uninterp spec fn rfc3339_instant(text: Seq<char>) -> Option<WallTime>;

pub open spec fn text_views(v: Seq<String>) -> Seq<Seq<char>> {
    v.map_values(|s: String| s@)
}

pub open spec fn pair_views(v: Seq<(String, String)>) -> Seq<(Seq<char>, Seq<char>)> {
    v.map_values(|p: (String, String)| (p.0@, p.1@))
}

/// `serde_json::from_str::<Vec<String>>`, `None` on error.
#[verifier::external_body]
fn parse_string_list(text: &str) -> (r: Option<Vec<String>>)
    ensures
        match r {
            Some(v) => json_strings(text@) == Some(text_views(v@)),
            None => json_strings(text@) is None,
        },
{
    serde_json::from_str::<Vec<String>>(text).ok()
}

/// `serde_json::from_str::<BTreeMap<String, String>>`, `None` on error; the
/// entries come out in the map's order, so their names are distinct (a
/// `BTreeMap` holds each key once).
#[verifier::external_body]
fn parse_string_map(text: &str) -> (r: Option<Vec<(String, String)>>)
    ensures
        match r {
            Some(v) => json_string_pairs(text@) == Some(pair_views(v@)) && distinct_env_names(v@),
            None => json_string_pairs(text@) is None,
        },
{
    serde_json::from_str::<std::collections::BTreeMap<String, String>>(text).ok().map(|m| m.into_iter().collect())
}

/// `chrono::DateTime::parse_from_rfc3339`, taken to UTC (seconds since the
/// epoch and nanoseconds), `None` on error.
#[verifier::external_body]
fn parse_rfc3339(text: &str) -> (r: Option<WallTime>)
    ensures
        r == rfc3339_instant(text@),
{
    chrono::DateTime::parse_from_rfc3339(text).ok().map(|d| {
        let u = d.with_timezone(&chrono::Utc);
        WallTime { secs: u.timestamp(), nanos: u.timestamp_subsec_nanos() }
    })
}

/// The stored columns of a server row, as text.
pub struct ServerColumns {
    pub id: String,
    pub name: String,
    pub description: String,
    pub command: String,
    /// A JSON array of strings.
    pub args: String,
    /// A JSON object of strings.
    pub env: String,
    pub transport: String,
    pub status: String,
    /// RFC 3339 text.
    pub installed_at: String,
    /// RFC 3339 text.
    pub updated_at: String,
    pub version: Option<String>,
    pub source: Option<String>,
    pub icon_url: Option<String>,
}

/// `t`, or `now` when there is none.
pub open spec fn time_or(t: Option<WallTime>, now: WallTime) -> WallTime {
    match t {
        Some(x) => x,
        None => now,
    }
}

/// `s` is the server the columns `c` hold, given what the args and env
/// columns decoded to and the times parsed to: columns of text copied,
/// undecodable args or env read as empty, the transport and status by
/// name, and a time that does not parse read as `now`.
pub open spec fn server_of(
    s: McpServer,
    c: ServerColumns,
    args: Option<Seq<Seq<char>>>,
    env: Option<Seq<(Seq<char>, Seq<char>)>>,
    installed_at: Option<WallTime>,
    updated_at: Option<WallTime>,
    now: WallTime,
) -> bool {
    &&& s.id == c.id
    &&& s.name == c.name
    &&& s.description == c.description
    &&& s.command == c.command
    &&& text_views(s.args@) == match args {
        Some(a) => a,
        None => Seq::empty(),
    }
    &&& pair_views(s.env@) == match env {
        Some(e) => e,
        None => Seq::empty(),
    }
    &&& s.transport == transport_from_name(c.transport@)
    &&& s.status == status_from_name(c.status@)
    &&& s.installed_at == time_or(installed_at, now)
    &&& s.updated_at == time_or(updated_at, now)
    &&& s.version == c.version
    &&& s.source == c.source
    &&& s.icon_url == c.icon_url
}

/// The server that the columns `c` hold, given what the args and env
/// columns decoded to (`None`: not decodable) and what the two time
/// columns parsed to (`None`: not RFC 3339); `now` stands in for a time
/// that does not parse.
pub fn server_from_parsed(
    c: ServerColumns,
    args: Option<Vec<String>>,
    env: Option<Vec<(String, String)>>,
    installed_at: Option<WallTime>,
    updated_at: Option<WallTime>,
    now: WallTime,
) -> (s: McpServer)
    ensures
        server_of(
            s,
            c,
            match args { Some(a) => Some(text_views(a@)), None => None },
            match env { Some(e) => Some(pair_views(e@)), None => None },
            installed_at,
            updated_at,
            now,
        ),
{
    let ghost gc = c;
    let transport = Transport::from_str(c.transport.as_str());
    let status = ServerStatus::from_str(c.status.as_str());
    let args = match args {
        Some(a) => a,
        None => {
            let v: Vec<String> = Vec::new();
            assert(text_views(v@) =~= Seq::empty());
            v
        },
    };
    let env = match env {
        Some(e) => e,
        None => {
            let v: Vec<(String, String)> = Vec::new();
            assert(pair_views(v@) =~= Seq::empty());
            v
        },
    };
    let installed_at = match installed_at {
        Some(t) => t,
        None => now,
    };
    let updated_at = match updated_at {
        Some(t) => t,
        None => now,
    };
    McpServer {
        id: c.id,
        name: c.name,
        description: c.description,
        command: c.command,
        args,
        env,
        transport,
        status,
        installed_at,
        updated_at,
        version: c.version,
        source: c.source,
        icon_url: c.icon_url,
    }
}

/// The server that a stored row holds: its args and env columns decoded as
/// JSON, its times parsed as RFC 3339 (`now` where one does not parse).
/// The env names come out distinct.
pub fn server_from_columns(c: ServerColumns, now: WallTime) -> (s: McpServer)
    ensures
        server_of(
            s,
            c,
            json_strings(c.args@),
            json_string_pairs(c.env@),
            rfc3339_instant(c.installed_at@),
            rfc3339_instant(c.updated_at@),
            now,
        ),
        distinct_env_names(s.env@),
{
    let args = parse_string_list(c.args.as_str());
    let env = parse_string_map(c.env.as_str());
    let installed_at = parse_rfc3339(c.installed_at.as_str());
    let updated_at = parse_rfc3339(c.updated_at.as_str());
    let ghost genv = env;
    let s = server_from_parsed(c, args, env, installed_at, updated_at, now);
    proof {
        if s.env@.len() > 0 {
            let e = genv->0@;
            assert(pair_views(s.env@) == pair_views(e));
            assert forall|i: int, j: int| 0 <= i < j < s.env@.len() implies #[trigger] s.env@[i].0@ != #[trigger] s.env@[j].0@ by {
                assert(pair_views(s.env@)[i] == pair_views(e)[i]);
                assert(pair_views(s.env@)[j] == pair_views(e)[j]);
                assert(e[i].0@ != e[j].0@);
            }
        }
    }
    s
}

/// The stored columns of a permission row.
pub struct PermissionColumns {
    pub id: i64,
    pub server_id: String,
    pub scope: String,
    pub target: Option<String>,
    pub reason: Option<String>,
    /// 0 when not granted.
    pub granted: i64,
    /// RFC 3339 text, when set.
    pub granted_at: Option<String>,
}

/// The permission that the columns `c` hold: text copied, granted unless
/// the flag is 0, and the grant time parsed as RFC 3339 (none when absent
/// or not RFC 3339).
pub fn permission_from_columns(c: PermissionColumns) -> (p: PersistedPermission)
    ensures
        p.id == c.id,
        p.server_id == c.server_id,
        p.scope == c.scope,
        p.target == c.target,
        p.reason == c.reason,
        p.granted == (c.granted != 0),
        p.granted_at == match c.granted_at {
            Some(t) => rfc3339_instant(t@),
            None => None,
        },
{
    let granted_at = match &c.granted_at {
        Some(t) => parse_rfc3339(t.as_str()),
        None => None,
    };
    PersistedPermission {
        id: c.id,
        server_id: c.server_id,
        scope: c.scope,
        target: c.target,
        reason: c.reason,
        granted: c.granted != 0,
        granted_at,
    }
}

// ---------------------------------------------------------------------------
// Writing a server's columns
// ---------------------------------------------------------------------------

/// What `serde_json::to_string` writes for a list of strings.
pub uninterp spec fn json_text_of_strings(v: Seq<Seq<char>>) -> Seq<char>;

/// What `serde_json::to_string` writes for the map holding these
/// `(name, value)` entries (a JSON object, by name).
pub uninterp spec fn json_text_of_pairs(v: Seq<(Seq<char>, Seq<char>)>) -> Seq<char>;

/// What `chrono::DateTime::<Utc>::to_rfc3339` writes for the instant `t`,
/// or `None` when `t` is outside chrono's range (`from_timestamp` fails).
pub uninterp spec fn rfc3339_text(t: WallTime) -> Option<Seq<char>>;

/// `serde_json::to_string` of a list of strings, `None` on error.
#[verifier::external_body]
fn encode_string_list(v: &Vec<String>) -> (r: Option<String>)
    ensures
        r matches Some(t) ==> t@ == json_text_of_strings(text_views(v@)),
{
    serde_json::to_string(v).ok()
}

/// `serde_json::to_string` of the map holding these entries, `None` on
/// error.
#[verifier::external_body]
fn encode_string_map(v: &Vec<(String, String)>) -> (r: Option<String>)
    ensures
        r matches Some(t) ==> t@ == json_text_of_pairs(pair_views(v@)),
{
    serde_json::to_string(&v.iter().map(|(k, x)| (k, x)).collect::<std::collections::BTreeMap<_, _>>()).ok()
}

/// `chrono::DateTime::<Utc>::from_timestamp` then `to_rfc3339`.
#[verifier::external_body]
fn format_rfc3339(t: WallTime) -> (r: Option<String>)
    ensures
        match r {
            Some(x) => rfc3339_text(t) == Some(x@),
            None => rfc3339_text(t) is None,
        },
{
    chrono::DateTime::from_timestamp(t.secs, t.nanos).map(|d| d.to_rfc3339())
}

/// The RFC 3339 text of an instant (`None` outside chrono's range).
pub fn time_text(t: WallTime) -> (r: Option<String>)
    ensures
        match r {
            Some(x) => rfc3339_text(t) == Some(x@),
            None => rfc3339_text(t) is None,
        },
{
    format_rfc3339(t)
}

/// The columns a server is stored as: text copied, args and env written as
/// JSON, transport and status by name, times as RFC 3339. `None` when a
/// time cannot be written or the JSON encoding fails.
pub fn server_columns(s: &McpServer) -> (r: Option<ServerColumns>)
    ensures
        (rfc3339_text(s.installed_at) is None || rfc3339_text(s.updated_at) is None) ==> r is None,
        r matches Some(c) ==> {
            &&& c.id == s.id
            &&& c.name == s.name
            &&& c.description == s.description
            &&& c.command == s.command
            &&& c.args@ == json_text_of_strings(text_views(s.args@))
            &&& c.env@ == json_text_of_pairs(pair_views(s.env@))
            &&& c.transport@ == crate::db::models::transport_name(s.transport)
            &&& c.status@ == crate::db::models::status_name(s.status)
            &&& rfc3339_text(s.installed_at) == Some(c.installed_at@)
            &&& rfc3339_text(s.updated_at) == Some(c.updated_at@)
            &&& c.version == s.version
            &&& c.source == s.source
            &&& c.icon_url == s.icon_url
        },
{
    let args = match encode_string_list(&s.args) {
        Some(t) => t,
        None => return None,
    };
    let env = match encode_string_map(&s.env) {
        Some(t) => t,
        None => return None,
    };
    let installed_at = match format_rfc3339(s.installed_at) {
        Some(t) => t,
        None => return None,
    };
    let updated_at = match format_rfc3339(s.updated_at) {
        Some(t) => t,
        None => return None,
    };
    Some(ServerColumns {
        id: s.id.clone(),
        name: s.name.clone(),
        description: s.description.clone(),
        command: s.command.clone(),
        args,
        env,
        transport: crate::text::owned(s.transport.as_str()),
        status: crate::text::owned(s.status.as_str()),
        installed_at,
        updated_at,
        version: crate::text::clone_opt_string(&s.version),
        source: crate::text::clone_opt_string(&s.source),
        icon_url: crate::text::clone_opt_string(&s.icon_url),
    })
}

} // verus!
