//! The signed command envelope pulled by agents, and the report on its
//! execution. Identifiers are the UUIDs' 128-bit values; timestamps are
//! microseconds since the Unix epoch (UTC).

use vstd::prelude::*;

use crate::remediation::{Capability, Condition, RiskTier, Rollback, Verify};
use crate::text::{chars_of, copy_string, opt_chars};

verus! {

/// Who or what authorised an action.
#[derive(Debug, Clone, PartialEq, Eq)]
pub enum ApprovalRef {
    /// Approved automatically by a signed policy.
    PolicyAuto,
    /// Approved by a named operator at a time.
    Human { user: String, approved_at: i64 },
}

/// A signed, ready-to-execute command. `steps` are fully resolved. The signed
/// bytes are the canonical encoding of every field except `sig`.
#[derive(Debug, Clone, PartialEq, Eq)]
pub struct CommandEnvelope {
    pub command_id: u128,
    pub agent_id: u128,
    pub template_id: String,
    pub template_version: u32,
    pub risk_tier: RiskTier,
    /// Read-only checks that must hold before any step runs.
    pub preconditions: Vec<Condition>,
    /// Ordered, fully-resolved capabilities to execute.
    pub steps: Vec<Capability>,
    pub verify: Option<Verify>,
    pub rollback: Rollback,
    pub approval_ref: ApprovalRef,
    /// Random per-command nonce; with `expires_at` this defeats replay.
    pub nonce: String,
    pub issued_at: i64,
    pub expires_at: i64,
    /// Identifier of the key that signed the envelope, when the signer stamped one.
    pub kid: Option<String>,
    /// Base64 Ed25519 signature over the canonical payload.
    pub sig: Option<String>,
}

/// Outcome of executing a command.
#[derive(Debug, Clone, Copy, PartialEq, Eq, Structural, Hash)]
pub enum ActionStatus {
    /// All steps ran and verification (if any) passed.
    Succeeded,
    /// A step or verification failed.
    Failed,
    /// The agent or actuator refused the command.
    Rejected,
    /// A precondition did not hold, so nothing ran.
    PreconditionFailed,
    /// Verification and the rollback both failed; the target is in an unknown state.
    Frozen,
}

/// The report on a command's execution.
#[derive(Debug, Clone, PartialEq, Eq)]
pub struct ActionResult {
    pub command_id: u128,
    pub status: ActionStatus,
    pub detail: Option<String>,
    pub observed_state: Option<String>,
    pub finished_at: i64,
}

/// The mathematical content of an [`ActionResult`].
pub ghost struct ResultView {
    pub command_id: u128,
    pub status: ActionStatus,
    pub detail: Option<Seq<char>>,
    pub observed_state: Option<Seq<char>>,
    pub finished_at: i64,
}

impl View for ActionResult {
    type V = ResultView;

    open spec fn view(&self) -> ResultView {
        ResultView {
            command_id: self.command_id,
            status: self.status,
            detail: opt_chars(self.detail),
            observed_state: opt_chars(self.observed_state),
            finished_at: self.finished_at,
        }
    }
}

fn copy_opt(o: &Option<String>) -> (r: Option<String>)
    ensures
        opt_chars(r) == opt_chars(*o),
{
    match o {
        Some(s) => Some(copy_string(s)),
        None => None,
    }
}

impl ActionResult {
    /// A copy of this result with the same contents.
    pub fn copy(&self) -> (r: ActionResult)
        ensures
            r@ == self@,
    {
        ActionResult {
            command_id: self.command_id,
            status: self.status,
            detail: copy_opt(&self.detail),
            observed_state: copy_opt(&self.observed_state),
            finished_at: self.finished_at,
        }
    }
}

/// A character allowed in an RFC 1123 DNS label: lower-case ASCII letter,
/// digit or `-`.
pub open spec fn label_char(c: char) -> bool {
    ('a' <= c && c <= 'z') || ('0' <= c && c <= '9') || c == '-'
}

/// An RFC 1123 DNS label, the form of Kubernetes namespace and pod names: one
/// to 63 characters from `[a-z0-9-]`, neither starting nor ending with `-`.
pub open spec fn valid_k8s_label(s: Seq<char>) -> bool {
    &&& 0 < s.len() <= 63
    &&& forall|i: int| 0 <= i < s.len() ==> label_char(#[trigger] s[i])
    &&& s[0] != '-'
    &&& s.last() != '-'
}

/// Whether `s` is an RFC 1123 DNS label (a valid Kubernetes namespace or pod
/// name).
pub fn is_valid_k8s_label(s: &str) -> (b: bool)
    ensures
        b == valid_k8s_label(s@),
{
    let v = chars_of(s);
    let n = v.len();
    if n == 0 || n > 63 {
        return false;
    }
    if v[0] == '-' || v[n - 1] == '-' {
        return false;
    }
    let mut i: usize = 0;
    while i < n
        invariant
            n == v@.len(),
            v@ == s@,
            i <= n,
            forall|k: int| 0 <= k < i ==> label_char(#[trigger] v@[k]),
        decreases n - i,
    {
        let c = v[i];
        if !(('a' <= c && c <= 'z') || ('0' <= c && c <= '9') || c == '-') {
            return false;
        }
        i = i + 1;
    }
    true
}

} // verus!
