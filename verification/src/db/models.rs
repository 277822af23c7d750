//! Server records and install requests.

use vstd::prelude::*;

use crate::db::permissions::RequestedPermission;
use crate::error::{AppError, AppResult};
use crate::ids::{new_uuid_string, now_wall};
use crate::session::types::WallTime;
use crate::text::{chars_of, owned, str_eq, trim, trim_chars};

verus! {

#[derive(Clone, Copy, Debug, PartialEq, Eq, Structural)]
pub enum Transport {
    Stdio,
    Sse,
    Http,
}

/// The stored name of a transport.
pub open spec fn transport_name(t: Transport) -> Seq<char> {
    match t {
        Transport::Stdio => "stdio"@,
        Transport::Sse => "sse"@,
        Transport::Http => "http"@,
    }
}

/// The transport a stored name stands for; unknown names mean `stdio`.
pub open spec fn transport_from_name(s: Seq<char>) -> Transport {
    if s == "sse"@ {
        Transport::Sse
    } else if s == "http"@ {
        Transport::Http
    } else {
        Transport::Stdio
    }
}

impl Transport {
    pub fn as_str(&self) -> (s: &'static str)
        ensures
            s@ == transport_name(*self),
    {
        match self {
            Transport::Stdio => "stdio",
            Transport::Sse => "sse",
            Transport::Http => "http",
        }
    }

    pub fn from_str(s: &str) -> (t: Self)
        ensures
            t == transport_from_name(s@),
    {
        if str_eq(s, "sse") {
            Transport::Sse
        } else if str_eq(s, "http") {
            Transport::Http
        } else {
            Transport::Stdio
        }
    }
}

/// The transport of an install request that names none.
pub fn default_transport() -> (t: Transport)
    ensures
        t == Transport::Stdio,
{
    Transport::Stdio
}

#[derive(Clone, Copy, Debug, PartialEq, Eq, Structural)]
pub enum ServerStatus {
    Stopped,
    Starting,
    Running,
    Crashed,
}

/// The stored name of a status.
pub open spec fn status_name(s: ServerStatus) -> Seq<char> {
    match s {
        ServerStatus::Stopped => "stopped"@,
        ServerStatus::Starting => "starting"@,
        ServerStatus::Running => "running"@,
        ServerStatus::Crashed => "crashed"@,
    }
}

/// The status a stored name stands for; unknown names mean `stopped`.
pub open spec fn status_from_name(s: Seq<char>) -> ServerStatus {
    if s == "starting"@ {
        ServerStatus::Starting
    } else if s == "running"@ {
        ServerStatus::Running
    } else if s == "crashed"@ {
        ServerStatus::Crashed
    } else {
        ServerStatus::Stopped
    }
}

impl ServerStatus {
    pub fn as_str(&self) -> (s: &'static str)
        ensures
            s@ == status_name(*self),
    {
        match self {
            ServerStatus::Stopped => "stopped",
            ServerStatus::Starting => "starting",
            ServerStatus::Running => "running",
            ServerStatus::Crashed => "crashed",
        }
    }

    pub fn from_str(s: &str) -> (t: Self)
        ensures
            t == status_from_name(s@),
    {
        if str_eq(s, "starting") {
            ServerStatus::Starting
        } else if str_eq(s, "running") {
            ServerStatus::Running
        } else if str_eq(s, "crashed") {
            ServerStatus::Crashed
        } else {
            ServerStatus::Stopped
        }
    }
}

/// Reading back a stored transport name gives the transport that was
/// stored.
pub proof fn lemma_transport_round_trip(t: Transport)
    ensures
        transport_from_name(transport_name(t)) == t,
{
    reveal_strlit("stdio");
    reveal_strlit("sse");
    reveal_strlit("http");
    assert("stdio"@.len() == 5 && "sse"@.len() == 3 && "http"@.len() == 4);
}

/// Reading back a stored status name gives the status that was stored.
pub proof fn lemma_status_round_trip(s: ServerStatus)
    ensures
        status_from_name(status_name(s)) == s,
{
    reveal_strlit("stopped");
    reveal_strlit("starting");
    reveal_strlit("running");
    reveal_strlit("crashed");
    assert("stopped"@.len() == 7 && "starting"@.len() == 8 && "running"@.len() == 7 && "crashed"@.len() == 7);
    assert("stopped"@[0] != "running"@[0] && "stopped"@[0] != "crashed"@[0] && "running"@[0] != "crashed"@[0]);
}

/// No two environment entries share a name (as in a map from name to
/// value).
pub open spec fn distinct_env_names(env: Seq<(String, String)>) -> bool {
    forall|i: int, j: int| 0 <= i < j < env.len() ==> #[trigger] env[i].0@ != #[trigger] env[j].0@
}

/// An installed MCP server.
pub struct McpServer {
    pub id: String,
    pub name: String,
    pub description: String,
    pub command: String,
    pub args: Vec<String>,
    /// Environment variables, as `(name, value)` pairs with distinct names
    /// (`distinct_env_names`); the library keeps names as they are.
    pub env: Vec<(String, String)>,
    pub transport: Transport,
    pub status: ServerStatus,
    pub installed_at: WallTime,
    pub updated_at: WallTime,
    pub version: Option<String>,
    pub source: Option<String>,
    pub icon_url: Option<String>,
}

/// What an install dialog submits. The id is generated on install.
pub struct InstallServerRequest {
    pub name: String,
    pub description: String,
    pub command: String,
    pub args: Vec<String>,
    pub env: Vec<(String, String)>,
    pub transport: Transport,
    pub version: Option<String>,
    pub source: Option<String>,
    pub icon_url: Option<String>,
    /// Permissions the user consented to in the install dialog.
    pub permissions: Vec<RequestedPermission>,
}

/// Whether a text is empty once surrounding whitespace is removed.
fn is_blank(s: &str) -> (r: bool)
    ensures
        r == (trim(s@).len() == 0),
{
    let t = trim_chars(&chars_of(s));
    t.len() == 0
}

/// Turns an install request into the record of a new server: a fresh id,
/// status `stopped`, installed and updated now, every other field from the
/// request. A name or command that is blank (only whitespace) is refused
/// with `InvalidManifest`. The requested permissions are handed back for
/// the caller to persist.
pub fn prepare_install(req: InstallServerRequest) -> (r: AppResult<(McpServer, Vec<RequestedPermission>)>)
    ensures
        r is Err <==> (trim(req.name@).len() == 0 || trim(req.command@).len() == 0),
        trim(req.name@).len() == 0 ==> (r matches Err(AppError::InvalidManifest(m)) && m@ == "name must not be empty"@),
        trim(req.name@).len() != 0 && trim(req.command@).len() == 0 ==> (r matches Err(AppError::InvalidManifest(m))
            && m@ == "command must not be empty"@),
        r matches Ok((s, p)) ==> s.name == req.name && s.description == req.description
            && s.command == req.command && s.args == req.args && s.env == req.env
            && s.transport == req.transport && s.status == ServerStatus::Stopped
            && s.installed_at == s.updated_at && s.version == req.version
            && s.source == req.source && s.icon_url == req.icon_url && p == req.permissions,
{
    let now = now_wall();
    let id = new_uuid_string();
    if is_blank(req.name.as_str()) {
        return Err(AppError::InvalidManifest(owned("name must not be empty")));
    }
    if is_blank(req.command.as_str()) {
        return Err(AppError::InvalidManifest(owned("command must not be empty")));
    }
    let server = McpServer {
        id,
        name: req.name,
        description: req.description,
        command: req.command,
        args: req.args,
        env: req.env,
        transport: req.transport,
        status: ServerStatus::Stopped,
        installed_at: now,
        updated_at: now,
        version: req.version,
        source: req.source,
        icon_url: req.icon_url,
    };
    Ok((server, req.permissions))
}

} // verus!
