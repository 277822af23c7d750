//! Persisted permission grants per server.

use vstd::prelude::*;

use crate::session::types::WallTime;

verus! {

/// A permission row: a scope (e.g. `fs.read`, `internet`) with an optional
/// target pattern, and whether it is currently granted.
pub struct PersistedPermission {
    pub id: i64,
    pub server_id: String,
    pub scope: String,
    pub target: Option<String>,
    pub reason: Option<String>,
    pub granted: bool,
    pub granted_at: Option<WallTime>,
}

/// A permission requested alongside an install request.
pub struct RequestedPermission {
    pub scope: String,
    pub target: Option<String>,
    pub reason: Option<String>,
}

} // verus!
