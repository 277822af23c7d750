//! Answering an approval prompt.

use vstd::prelude::*;

use crate::error::AppError;
use crate::security::approvals::{ApprovalDecision, ApprovalRegistry};
use crate::text::{owned, push_all};

verus! {

/// The error for an answer to a prompt that is not pending.
pub open spec fn no_pending_message(id: Seq<char>) -> Seq<char> {
    "no pending approval with id "@ + id + " (already resolved?)"@
}

/// Hands the user's answer to the request waiting on approval `id`. The
/// approval is no longer pending afterwards. When it was not pending, or
/// its requester is gone, the answer reaches no one and an error says so.
pub fn resolve_approval(registry: &mut ApprovalRegistry, id: &str, decision: ApprovalDecision) -> (r: Result<(), AppError>)
    requires
        old(registry).wf(),
    ensures
        final(registry).wf(),
        !final(registry).is_pending(id@),
        !old(registry).is_pending(id@) ==> final(registry).ids() == old(registry).ids(),
        old(registry).is_pending(id@) ==> final(registry).ids() == old(registry).ids().remove(
            old(registry).ids().index_of(id@),
        ),
        !old(registry).is_pending(id@) ==> (r matches Err(AppError::Internal(m)) && m@ == no_pending_message(id@)),
        r is Err ==> (r matches Err(AppError::Internal(m)) && m@ == no_pending_message(id@)),
{
    if registry.resolve(id, decision) {
        Ok(())
    } else {
        let mut m = owned("no pending approval with id ");
        push_all(&mut m, id);
        push_all(&mut m, " (already resolved?)");
        Err(AppError::Internal(m))
    }
}

} // verus!
