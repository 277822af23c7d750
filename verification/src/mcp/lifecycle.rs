//! What starting a server's process leads to: the status it is recorded
//! with afterwards, and the error reported when it could not be spawned.

use vstd::prelude::*;

use crate::db::models::ServerStatus;
use crate::error::AppError;
use crate::text::{owned, push_all};

verus! {

/// The outcome of spawning the process of a server launched with
/// `command`: `Running` when it spawned; `Crashed` and a process error
/// naming the command and the spawn error `spawn_error` when it did not.
pub fn start_outcome(command: &str, spawn_error: Option<&str>) -> (r: (ServerStatus, Option<AppError>))
    ensures
        match spawn_error {
            None => r.0 == ServerStatus::Running && r.1 is None,
            Some(e) => r.0 == ServerStatus::Crashed && (r.1 matches Some(AppError::Process(m))
                && m@ == "failed to spawn "@ + command@ + ": "@ + e@),
        },
{
    match spawn_error {
        None => (ServerStatus::Running, None),
        Some(e) => {
            let mut m = owned("failed to spawn ");
            push_all(&mut m, command);
            push_all(&mut m, ": ");
            push_all(&mut m, e);
            (ServerStatus::Crashed, Some(AppError::Process(m)))
        },
    }
}

} // verus!
