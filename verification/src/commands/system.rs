//! App information and the client configuration snippet that routes a
//! client's traffic for one server through the hub.

use vstd::prelude::*;

use crate::db::models::McpServer;
use crate::lowercase::to_lowercase;
use crate::security::sandbox::{sanitize_path, sanitize_path_spec};
use crate::text::{is_ascii_alnum, is_ascii_alphanumeric, lower_ascii, owned, push_all, string_of};

verus! {

/// What the About view shows.
pub struct AppInfo {
    pub version: &'static str,
    pub data_dir: String,
    /// Platform sandbox label: `macos-sandbox-exec` or `noop`.
    pub sandbox_enforcement: &'static str,
}

/// What a client needs to reach one server through the hub.
pub struct ProxyConfig {
    pub server_id: String,
    pub server_name: String,
    /// Absolute path of the proxy helper binary.
    pub proxy_path: String,
    /// The JSON snippet to paste into the client's configuration.
    pub snippet: String,
    pub sock_path: String,
}

/// A server name made into a configuration key: ASCII letters, digits,
/// `-` and `_` are kept, anything else becomes `-`; then lower case.
pub open spec fn key_char(c: char) -> char {
    if is_ascii_alnum(c) || c == '-' || c == '_' {
        c
    } else {
        '-'
    }
}

pub open spec fn sanitize_key_spec(name: Seq<char>) -> Seq<char> {
    lower_ascii(name.map_values(|c: char| key_char(c)))
}

/// Makes a server name usable as a key of the client configuration.
pub fn sanitize_key(name: &str) -> (r: String)
    ensures
        r@ == sanitize_key_spec(name@),
{
    let cs = crate::text::chars_of(name);
    let mut out: Vec<char> = Vec::new();
    let mut i: usize = 0;
    while i < cs.len()
        invariant
            i <= cs.len(),
            cs@ == name@,
            out@ == cs@.take(i as int).map_values(|c: char| key_char(c)),
            forall|k: int| 0 <= k < out@.len() ==> (#[trigger] out@[k] as u32) < 128,
        decreases cs.len() - i,
    {
        let c = cs[i];
        let k = if is_ascii_alphanumeric(c) || c == '-' || c == '_' {
            c
        } else {
            '-'
        };
        out.push(k);
        i = i + 1;
        assert(out@ =~= cs@.take(i as int).map_values(|c: char| key_char(c)));
    }
    assert(cs@.take(cs.len() as int) == cs@);
    let mapped = string_of(&out);
    to_lowercase(mapped.as_str())
}

/// Escapes backslashes and double quotes for a JSON string literal (the
/// same escaping as an SBPL path string).
pub fn escape_json_string(s: &str) -> (r: String)
    ensures
        r@ == sanitize_path_spec(s@),
{
    sanitize_path(s)
}

/// The client configuration snippet for the server keyed `key`, launched
/// as `command` with the single argument `id`.
pub open spec fn snippet_spec(key: Seq<char>, command: Seq<char>, id: Seq<char>) -> Seq<char> {
    "{\n  \"mcpServers\": {\n    \""@ + key + "\": {\n      \"command\": \""@ + command
        + "\",\n      \"args\": [\""@ + id + "\"]\n    }\n  }\n}"@
}

/// The configuration for routing `server` through the hub: the proxy helper
/// at `proxy_path` is launched with the server's id as its argument, under
/// the server's sanitized name; `sock_path` is the hub's socket.
pub fn proxy_config(server: &McpServer, proxy_path: &str, sock_path: &str) -> (c: ProxyConfig)
    ensures
        c.server_id@ == server.id@,
        c.server_name@ == server.name@,
        c.proxy_path@ == proxy_path@,
        c.sock_path@ == sock_path@,
        c.snippet@ == snippet_spec(
            sanitize_key_spec(server.name@),
            sanitize_path_spec(proxy_path@),
            sanitize_path_spec(server.id@),
        ),
{
    let key = sanitize_key(server.name.as_str());
    let cmd = escape_json_string(proxy_path);
    let id = escape_json_string(server.id.as_str());
    let mut snippet = owned("{\n  \"mcpServers\": {\n    \"");
    push_all(&mut snippet, key.as_str());
    push_all(&mut snippet, "\": {\n      \"command\": \"");
    push_all(&mut snippet, cmd.as_str());
    push_all(&mut snippet, "\",\n      \"args\": [\"");
    push_all(&mut snippet, id.as_str());
    push_all(&mut snippet, "\"]\n    }\n  }\n}");
    ProxyConfig {
        server_id: server.id.clone(),
        server_name: server.name.clone(),
        proxy_path: owned(proxy_path),
        snippet,
        sock_path: owned(sock_path),
    }
}

} // verus!
