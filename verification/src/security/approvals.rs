//! The runtime approval flow: a registry of pending approvals awaiting the
//! user's decision, and the static risk bucket shown with each prompt.
//! Pending approvals are keyed by string ids, for which vstd's
//! specification of `std::collections::HashMap` proves nothing (not even
//! the length after one insert), so they are kept in a vector, in
//! registration order, with distinct ids.

use vstd::prelude::*;

use crate::lowercase::{to_lowercase, unicode_lower};
use crate::mcp::agent::{ActionKind, AgentAction, opt_str};
use crate::session::types::WallTime;
use crate::ids::now_wall;
use crate::text::{clone_opt_string, contains, owned, str_contains, str_eq};

verus! {

#[verifier::external_type_specification]
#[verifier::external_body]
#[verifier::reject_recursive_types(T)]
pub struct ExOneshotSender<T>(tokio::sync::oneshot::Sender<T>);

/// The user's choice.
#[derive(Clone, Copy, Debug, PartialEq, Eq, Structural)]
pub enum ApprovalDecision {
    /// Grant for this single request.
    AllowOnce,
    /// Grant for this request and persist the scope.
    AllowSession,
    /// Refuse this request.
    Deny,
}

/// What the approval prompt shows and routes the decision by.
pub struct ApprovalRequest {
    pub id: String,
    pub server_id: String,
    pub server_name: String,
    pub tool: String,
    pub kind: ActionKind,
    pub target: Option<String>,
    /// Scope token that "Always Allow" would grant.
    pub scope: String,
    /// Static risk bucket: `low`, `medium` or `high`.
    pub risk: &'static str,
    pub requested_at: WallTime,
}

/// `tokio::sync::oneshot::Sender::send`: hands `decision` to the receiving
/// half and reports whether it was accepted (`false` once the receiver is
/// gone). Whether the receiver is still there is decided outside this
/// library, so nothing is stated of the result.
#[verifier::external_body]
fn deliver(tx: tokio::sync::oneshot::Sender<ApprovalDecision>, decision: ApprovalDecision) -> (delivered: bool) {
    tx.send(decision).is_ok()
}

/// Pending approvals, keyed by approval id.
pub struct ApprovalRegistry {
    pending: Vec<(String, tokio::sync::oneshot::Sender<ApprovalDecision>)>,
}

impl ApprovalRegistry {
    /// Ids are distinct.
    pub closed spec fn wf(&self) -> bool {
        forall|i: int, j: int|
            0 <= i < j < self.pending@.len() ==> #[trigger] self.pending@[i].0@ != #[trigger] self.pending@[j].0@
    }

    /// The ids awaiting a decision, in registration order.
    pub closed spec fn ids(&self) -> Seq<Seq<char>> {
        self.pending@.map_values(|p: (String, tokio::sync::oneshot::Sender<ApprovalDecision>)| p.0@)
    }

    pub open spec fn is_pending(&self, id: Seq<char>) -> bool {
        self.ids().contains(id)
    }

    pub open spec fn count(&self) -> nat {
        self.ids().len()
    }

    pub fn new() -> (r: Self)
        ensures
            r.wf(),
            r.ids() == Seq::<Seq<char>>::empty(),
    {
        let r = ApprovalRegistry { pending: Vec::new() };
        assert(r.ids() =~= Seq::<Seq<char>>::empty());
        r
    }

    fn find(&self, id: &str) -> (r: Option<usize>)
        ensures
            match r {
                Some(i) => i < self.pending@.len() && self.pending@[i as int].0@ == id@,
                None => !self.ids().contains(id@),
            },
    {
        let mut i: usize = 0;
        while i < self.pending.len()
            invariant
                i <= self.pending@.len(),
                forall|j: int| 0 <= j < i ==> self.pending@[j].0@ != id@,
            decreases self.pending.len() - i,
        {
            if str_eq(self.pending[i].0.as_str(), id) {
                return Some(i);
            }
            i = i + 1;
        }
        proof {
            if self.ids().contains(id@) {
                let k = choose|k: int| 0 <= k < self.ids().len() && self.ids()[k] == id@;
                assert(self.pending@[k].0@ == id@);
            }
        }
        None
    }

    /// Registers a pending approval under `id`. A sender already registered
    /// under the same id is replaced (and dropped).
    pub fn register(&mut self, id: String, sender: tokio::sync::oneshot::Sender<ApprovalDecision>)
        requires
            old(self).wf(),
        ensures
            final(self).wf(),
            old(self).is_pending(id@) ==> final(self).ids() == old(self).ids(),
            !old(self).is_pending(id@) ==> final(self).ids() == old(self).ids().push(id@),
    {
        let ghost before = self.ids();
        let ghost old_pending = self.pending@;
        match self.find(id.as_str()) {
            Some(i) => {
                self.pending.remove(i);
                self.pending.insert(i, (id, sender));
                proof {
                    assert(before[i as int] == id@);
                    assert(before.contains(id@));
                    assert(self.ids() =~= before);
                    assert forall|a: int, b: int| 0 <= a < b < self.pending@.len() implies #[trigger] self.pending@[a].0@
                        != #[trigger] self.pending@[b].0@ by {
                        assert(self.pending@[a].0@ == before[a] && self.pending@[b].0@ == before[b]);
                        assert(old_pending[a].0@ == before[a] && old_pending[b].0@ == before[b]);
                    }
                }
            },
            None => {
                self.pending.push((id, sender));
                proof {
                    assert(self.ids() =~= before.push(id@));
                    assert forall|a: int, b: int| 0 <= a < b < self.pending@.len() implies #[trigger] self.pending@[a].0@
                        != #[trigger] self.pending@[b].0@ by {
                        if b == self.pending@.len() - 1 {
                            assert(before[a] == old_pending[a].0@);
                            assert(before.contains(before[a]));
                        } else {
                            assert(old_pending[a].0@ != old_pending[b].0@);
                        }
                    }
                }
            },
        }
    }

    /// Resolves the pending approval `id` with `decision`: the approval is
    /// removed and the decision handed to its waiter. Returns whether it was
    /// pending and the waiter accepted the decision; an unknown (or already
    /// resolved) id returns `false` and changes nothing.
    pub fn resolve(&mut self, id: &str, decision: ApprovalDecision) -> (delivered: bool)
        requires
            old(self).wf(),
        ensures
            final(self).wf(),
            !final(self).is_pending(id@),
            !old(self).is_pending(id@) ==> !delivered && final(self).ids() == old(self).ids(),
            old(self).is_pending(id@) ==> final(self).ids() == old(self).ids().remove(
                old(self).ids().index_of(id@),
            ),
    {
        let ghost before = self.ids();
        let ghost old_pending = self.pending@;
        match self.find(id) {
            Some(i) => {
                let (_key, tx) = self.pending.remove(i);
                proof {
                    assert(before[i as int] == id@);
                    assert forall|j: int| 0 <= j < before.len() && j != i implies before[j] != id@ by {
                        if j < i {
                            assert(old_pending[j].0@ != old_pending[i as int].0@);
                        } else {
                            assert(old_pending[i as int].0@ != old_pending[j].0@);
                        }
                    }
                    assert(before.index_of(id@) == i) by {
                        let f = before.index_of(id@);
                        assert(before.contains(id@));
                        assert(before[f] == id@);
                    }
                    assert(self.ids() =~= before.remove(i as int));
                    assert forall|a: int, b: int| 0 <= a < b < self.pending@.len() implies #[trigger] self.pending@[a].0@
                        != #[trigger] self.pending@[b].0@ by {
                        let a0 = if a < i { a } else { a + 1 };
                        let b0 = if b < i { b } else { b + 1 };
                        assert(old_pending[a0].0@ != old_pending[b0].0@);
                    }
                    if self.ids().contains(id@) {
                        let k = choose|k: int| 0 <= k < self.ids().len() && self.ids()[k] == id@;
                        let k0 = if k < i { k } else { k + 1 };
                        assert(before[k0] == id@);
                    }
                }
                deliver(tx, decision)
            },
            None => false,
        }
    }

    /// How many approvals are waiting.
    pub fn pending_count(&self) -> (n: usize)
        ensures
            n == self.count(),
    {
        self.pending.len()
    }
}

// ---------------------------------------------------------------------------
// Static risk classification
// ---------------------------------------------------------------------------

/// Path fragments that make a target sensitive.
pub open spec fn sensitive_fragments() -> Seq<Seq<char>> {
    seq![".ssh"@, ".aws"@, ".gnupg"@, "/etc/"@, "/var/root"@, "/system/"@, "/keychain"@]
}

/// Whether the lower-cased target contains a sensitive fragment.
pub open spec fn is_sensitive_spec(target: Seq<char>) -> bool {
    exists|i: int| 0 <= i < sensitive_fragments().len() && contains(unicode_lower(target), #[trigger] sensitive_fragments()[i])
}

/// Paths under `~/.ssh`, `~/.aws`, `/etc/`, … are sensitive regardless of the
/// action.
pub fn is_sensitive_fs_path(target: &str) -> (r: bool)
    ensures
        r == is_sensitive_spec(target@),
{
    let lowered = to_lowercase(target);
    let frags = vec![".ssh", ".aws", ".gnupg", "/etc/", "/var/root", "/system/", "/keychain"];
    assert(frags@.map_values(|f: &str| f@) =~= sensitive_fragments());
    let mut i: usize = 0;
    while i < frags.len()
        invariant
            i <= frags.len(),
            lowered@ == unicode_lower(target@),
            frags@.map_values(|f: &str| f@) == sensitive_fragments(),
            forall|j: int| 0 <= j < i ==> !contains(unicode_lower(target@), #[trigger] sensitive_fragments()[j]),
        decreases frags.len() - i,
    {
        assert(sensitive_fragments()[i as int] == frags@[i as int]@);
        if str_contains(lowered.as_str(), frags[i]) {
            return true;
        }
        i = i + 1;
    }
    false
}

/// The risk bucket of a request.
pub open spec fn risk_spec(kind: ActionKind, target: Option<Seq<char>>) -> Seq<char> {
    let sensitive = match target {
        Some(t) => is_sensitive_spec(t),
        None => false,
    };
    match kind {
        ActionKind::FsWrite => if sensitive { "high"@ } else { "medium"@ },
        ActionKind::TerminalExec => "high"@,
        ActionKind::FsRead => if sensitive { "medium"@ } else { "low"@ },
        ActionKind::HttpFetch | ActionKind::BrowserOpen => "medium"@,
        ActionKind::Search | ActionKind::MemoryStore => "low"@,
        ActionKind::ToolCall | ActionKind::Other => "low"@,
    }
}

/// A target is sensitive exactly when its lower-cased text contains one of
/// `.ssh`, `.aws`, `.gnupg`, `/etc/`, `/var/root`, `/system/` or
/// `/keychain`; a write to a sensitive path is high risk (else medium), a
/// read of one medium (else low); command execution is always high risk,
/// network and browser access medium, everything else low.
pub proof fn lemma_sensitive_paths(target: Seq<char>)
    ensures
        is_sensitive_spec(target) <==> {
            let l = unicode_lower(target);
            contains(l, ".ssh"@) || contains(l, ".aws"@) || contains(l, ".gnupg"@) || contains(l, "/etc/"@)
                || contains(l, "/var/root"@) || contains(l, "/system/"@) || contains(l, "/keychain"@)
        },
        risk_spec(ActionKind::FsWrite, Some(target)) == if is_sensitive_spec(target) { "high"@ } else { "medium"@ },
        risk_spec(ActionKind::FsRead, Some(target)) == if is_sensitive_spec(target) { "medium"@ } else { "low"@ },
        risk_spec(ActionKind::FsWrite, None) == "medium"@,
        risk_spec(ActionKind::FsRead, None) == "low"@,
        risk_spec(ActionKind::TerminalExec, Some(target)) == "high"@,
        risk_spec(ActionKind::HttpFetch, Some(target)) == "medium"@,
        risk_spec(ActionKind::BrowserOpen, Some(target)) == "medium"@,
        risk_spec(ActionKind::Search, Some(target)) == "low"@,
        risk_spec(ActionKind::MemoryStore, Some(target)) == "low"@,
        risk_spec(ActionKind::ToolCall, Some(target)) == "low"@,
        risk_spec(ActionKind::Other, Some(target)) == "low"@,
{
    let l = unicode_lower(target);
    let f = sensitive_fragments();
    assert(f[0] == ".ssh"@ && f[1] == ".aws"@ && f[2] == ".gnupg"@ && f[3] == "/etc/"@);
    assert(f[4] == "/var/root"@ && f[5] == "/system/"@ && f[6] == "/keychain"@);
    if is_sensitive_spec(target) {
        let i = choose|i: int| 0 <= i < f.len() && contains(l, #[trigger] f[i]);
        assert(i == 0 || i == 1 || i == 2 || i == 3 || i == 4 || i == 5 || i == 6);
    }
    if contains(l, ".ssh"@) { assert(contains(l, f[0])); }
    if contains(l, ".aws"@) { assert(contains(l, f[1])); }
    if contains(l, ".gnupg"@) { assert(contains(l, f[2])); }
    if contains(l, "/etc/"@) { assert(contains(l, f[3])); }
    if contains(l, "/var/root"@) { assert(contains(l, f[4])); }
    if contains(l, "/system/"@) { assert(contains(l, f[5])); }
    if contains(l, "/keychain"@) { assert(contains(l, f[6])); }
}

/// Buckets a request into `low` / `medium` / `high` by static rules: writes
/// are medium (high on a sensitive path), command execution is high, reads
/// are low (medium on a sensitive path), network and browser access are
/// medium, everything else is low.
pub fn risk_for_kind(kind: ActionKind, target: Option<&str>) -> (r: &'static str)
    ensures
        r@ == risk_spec(kind, match target { Some(t) => Some(t@), None => None }),
{
    let sensitive = match target {
        Some(t) => is_sensitive_fs_path(t),
        None => false,
    };
    match kind {
        ActionKind::FsWrite => if sensitive { "high" } else { "medium" },
        ActionKind::TerminalExec => "high",
        ActionKind::FsRead => if sensitive { "medium" } else { "low" },
        ActionKind::HttpFetch | ActionKind::BrowserOpen => "medium",
        ActionKind::Search | ActionKind::MemoryStore => "low",
        ActionKind::ToolCall | ActionKind::Other => "low",
    }
}

impl ApprovalRequest {
    /// The prompt for `action` under a fresh id: the action's tool, kind and
    /// target, the scope that "Always Allow" would grant, its risk bucket,
    /// and the current time.
    pub fn for_action(id: String, server_id: &str, server_name: &str, action: &AgentAction, scope: &str) -> (r: Self)
        ensures
            r.id == id,
            r.server_id@ == server_id@,
            r.server_name@ == server_name@,
            r.tool@ == action.tool_name@,
            r.kind == action.kind,
            opt_str(r.target) == opt_str(action.target),
            r.scope@ == scope@,
            r.risk@ == risk_spec(action.kind, opt_str(action.target)),
    {
        let t: Option<&str> = match &action.target {
            Some(s) => Some(s.as_str()),
            None => None,
        };
        ApprovalRequest {
            id,
            server_id: owned(server_id),
            server_name: owned(server_name),
            tool: action.tool_name.clone(),
            kind: action.kind,
            target: clone_opt_string(&action.target),
            scope: owned(scope),
            risk: risk_for_kind(action.kind, t),
            requested_at: now_wall(),
        }
    }
}

} // verus!
