//! The permission model surfaced to the user.

use vstd::prelude::*;

use crate::session::types::WallTime;

verus! {

#[derive(Clone, Copy, Debug, PartialEq, Eq, Structural)]
pub enum PermissionScope {
    /// Read files matching a path glob.
    FsRead,
    /// Write files matching a path glob.
    FsWrite,
    /// Outbound network access to a host pattern.
    NetOutbound,
    /// Read environment variables.
    EnvRead,
    /// Execute subprocesses.
    Exec,
}

pub struct Permission {
    pub id: i64,
    pub server_id: String,
    pub scope: PermissionScope,
    /// Glob / pattern for the resource (path, host, …).
    pub target: Option<String>,
    pub granted: bool,
    pub granted_at: Option<WallTime>,
}

} // verus!
