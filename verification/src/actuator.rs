//! The privileged actuator's command handling. Every identifier a command
//! targets is validated before anything runs; then a state machine checks the
//! preconditions, runs the steps in order, polls the verify post-condition and,
//! when verification fails, performs the declared rollback. The caller runs
//! each capability the machine asks for and hands the outcome back.

use vstd::prelude::*;

use crate::command::{
    is_valid_k8s_label, valid_k8s_label, ActionResult, ActionStatus, CommandEnvelope, ResultView,
};
use crate::crypto::{envelope_check, verify_envelope, verify_error_text, PublicKey, VerifyError};
use crate::keyring::{ring_check, verify_envelope_with, Keyring};
use crate::remediation::{Capability, CapabilityView, Condition, Rollback};
use crate::text::{cat, chars_of, debug_quoted, debug_str, opt_chars};

verus! {

/// How long the caller waits between two polls of the verify check.
pub const VERIFY_POLL_INTERVAL_MS: u64 = 500;

/// A capability execution failure (non-zero exit, spawn error, invalid input).
#[derive(Debug, Clone, PartialEq, Eq)]
pub struct ExecError(pub String);

impl ExecError {
    /// The error's text.
    pub fn message(&self) -> (s: &str)
        ensures
            s@ == self.0@,
    {
        self.0.as_str()
    }
}

/// A character systemd unit names are built from.
pub open spec fn unit_char(c: char) -> bool {
    ||| ('a' <= c && c <= 'z')
    ||| ('A' <= c && c <= 'Z')
    ||| ('0' <= c && c <= '9')
    ||| c == '.'
    ||| c == '_'
    ||| c == '-'
    ||| c == '@'
    ||| c == ':'
    ||| c == '\\'
}

/// A plausible systemd unit name: one to 256 characters, all from the
/// conservative set of [`unit_char`]. (Such a name is ASCII, so its length in
/// characters is its length in bytes.)
pub open spec fn valid_unit(s: Seq<char>) -> bool {
    &&& 0 < s.len() <= 256
    &&& forall|i: int| 0 <= i < s.len() ==> unit_char(#[trigger] s[i])
}

/// Validate a systemd unit name before it reaches a subprocess argument.
pub fn is_valid_unit(unit: &str) -> (b: bool)
    ensures
        b == valid_unit(unit@),
{
    let v = chars_of(unit);
    let n = v.len();
    if n == 0 || n > 256 {
        return false;
    }
    let mut i: usize = 0;
    while i < n
        invariant
            n == v@.len(),
            v@ == unit@,
            i <= n,
            forall|k: int| 0 <= k < i ==> unit_char(#[trigger] v@[k]),
        decreases n - i,
    {
        let c = v[i];
        let ok = ('a' <= c && c <= 'z') || ('A' <= c && c <= 'Z') || ('0' <= c && c <= '9') || c
            == '.' || c == '_' || c == '-' || c == '@' || c == ':' || c == '\\';
        if !ok {
            return false;
        }
        i = i + 1;
    }
    true
}

/// The unit a capability targets, if any.
pub open spec fn cap_unit(c: CapabilityView) -> Option<Seq<char>> {
    match c {
        CapabilityView::ResetFailed { unit } => Some(unit),
        CapabilityView::RestartUnit { unit } => Some(unit),
        CapabilityView::UnitState { unit } => Some(unit),
        _ => None,
    }
}

/// The unit a capability targets, if any. `NixRollback` targets no unit.
fn capability_unit(cap: &Capability) -> (r: Option<&str>)
    ensures
        match r {
            Some(u) => cap_unit(cap@) == Some(u@),
            None => cap_unit(cap@) is None,
        },
{
    match cap {
        Capability::ResetFailed { unit } => Some(unit.as_str()),
        Capability::RestartUnit { unit } => Some(unit.as_str()),
        Capability::UnitState { unit } => Some(unit.as_str()),
        _ => None,
    }
}

/// The Kubernetes identifiers a capability targets, as `(field, value)` pairs.
pub open spec fn kube_ids(c: CapabilityView) -> Seq<(Seq<char>, Seq<char>)> {
    match c {
        CapabilityView::DeletePod { namespace, pod } => seq![
            ("namespace"@, namespace),
            ("pod"@, pod),
        ],
        CapabilityView::RestartDeployment { namespace, deployment } => seq![
            ("namespace"@, namespace),
            ("deployment"@, deployment),
        ],
        CapabilityView::PodState { namespace, pod_prefix } => seq![
            ("namespace"@, namespace),
            ("pod_prefix"@, pod_prefix),
        ],
        _ => seq![],
    }
}

/// Kubernetes identifiers targeted by a capability, as `(field_name, value)`
/// pairs; empty for capabilities that carry none.
fn capability_kube_ids(cap: &Capability) -> (ids: Vec<(&'static str, &str)>)
    ensures
        ids@.len() == kube_ids(cap@).len(),
        forall|k: int|
            0 <= k < ids@.len() ==> (#[trigger] ids@[k].0@, ids@[k].1@) == kube_ids(cap@)[k],
{
    let mut ids: Vec<(&'static str, &str)> = Vec::new();
    match cap {
        Capability::DeletePod { namespace, pod } => {
            ids.push(("namespace", namespace.as_str()));
            ids.push(("pod", pod.as_str()));
        },
        Capability::RestartDeployment { namespace, deployment } => {
            ids.push(("namespace", namespace.as_str()));
            ids.push(("deployment", deployment.as_str()));
        },
        Capability::PodState { namespace, pod_prefix } => {
            ids.push(("namespace", namespace.as_str()));
            ids.push(("pod_prefix", pod_prefix.as_str()));
        },
        _ => {},
    }
    ids
}

/// Whether a capability acts on a Kubernetes cluster.
pub open spec fn is_kube(c: CapabilityView) -> bool {
    c is DeletePod || c is RestartDeployment || c is PodState
}

/// Whether any precondition check, step or verify check of the envelope is a
/// Kubernetes capability.
pub open spec fn has_kube_capability(env: CommandEnvelope) -> bool {
    ||| exists|i: int|
        0 <= i < env.preconditions@.len() && is_kube(#[trigger] env.preconditions@[i].check@)
    ||| exists|i: int| 0 <= i < env.steps@.len() && is_kube(#[trigger] env.steps@[i]@)
    ||| env.verify matches Some(v) && is_kube(v.check@)
}

fn is_kube_exec(c: &Capability) -> (b: bool)
    ensures
        b == is_kube(c@),
{
    match c {
        Capability::DeletePod { .. } | Capability::RestartDeployment { .. }
        | Capability::PodState { .. } => true,
        _ => false,
    }
}

/// Whether any step or check in the envelope is a Kubernetes capability. The
/// host actuator cannot execute these: they belong to the in-cluster executor.
pub fn envelope_contains_kube_capability(env: &CommandEnvelope) -> (b: bool)
    ensures
        b == has_kube_capability(*env),
{
    let mut i: usize = 0;
    while i < env.preconditions.len()
        invariant
            i <= env.preconditions@.len(),
            forall|k: int| 0 <= k < i ==> !is_kube(#[trigger] env.preconditions@[k].check@),
        decreases env.preconditions@.len() - i,
    {
        if is_kube_exec(&env.preconditions[i].check) {
            return true;
        }
        i = i + 1;
    }
    let mut j: usize = 0;
    while j < env.steps.len()
        invariant
            j <= env.steps@.len(),
            forall|k: int| 0 <= k < env.preconditions@.len() ==> !is_kube(#[trigger] env.preconditions@[k].check@),
            forall|k: int| 0 <= k < j ==> !is_kube(#[trigger] env.steps@[k]@),
        decreases env.steps@.len() - j,
    {
        if is_kube_exec(&env.steps[j]) {
            return true;
        }
        j = j + 1;
    }
    match &env.verify {
        Some(v) => is_kube_exec(&v.check),
        None => false,
    }
}

/// The rejection text for an invalid unit name.
pub open spec fn unit_fault_text(unit: Seq<char>) -> Seq<char> {
    "invalid unit name: "@ + debug_str(unit)
}

/// The rejection text for an invalid Kubernetes identifier.
pub open spec fn kube_fault_text(field: Seq<char>, value: Seq<char>) -> Seq<char> {
    "invalid Kubernetes identifier for "@ + field + ": "@ + debug_str(value)
}

/// The first of `ids` whose value is not an RFC 1123 label, as rejection text.
pub open spec fn ids_fault(ids: Seq<(Seq<char>, Seq<char>)>) -> Option<Seq<char>>
    decreases ids.len(),
{
    if ids.len() == 0 {
        None
    } else if !valid_k8s_label(ids[0].1) {
        Some(kube_fault_text(ids[0].0, ids[0].1))
    } else {
        ids_fault(ids.drop_first())
    }
}

/// What is wrong with the identifiers one capability targets: its unit name
/// first, then its Kubernetes identifiers in order.
pub open spec fn target_fault(c: CapabilityView) -> Option<Seq<char>> {
    if cap_unit(c) is Some && !valid_unit(cap_unit(c)->0) {
        Some(unit_fault_text(cap_unit(c)->0))
    } else {
        ids_fault(kube_ids(c))
    }
}

/// The first target fault among the precondition checks.
pub open spec fn conditions_target_fault(conds: Seq<Condition>) -> Option<Seq<char>>
    decreases conds.len(),
{
    if conds.len() == 0 {
        None
    } else {
        match target_fault(conds[0].check@) {
            Some(d) => Some(d),
            None => conditions_target_fault(conds.drop_first()),
        }
    }
}

/// The first target fault among the steps.
pub open spec fn steps_target_fault(steps: Seq<Capability>) -> Option<Seq<char>>
    decreases steps.len(),
{
    if steps.len() == 0 {
        None
    } else {
        match target_fault(steps[0]@) {
            Some(d) => Some(d),
            None => steps_target_fault(steps.drop_first()),
        }
    }
}

/// The first target fault of the envelope: precondition checks, then steps,
/// then the verify check.
pub open spec fn envelope_target_fault(env: CommandEnvelope) -> Option<Seq<char>> {
    match conditions_target_fault(env.preconditions@) {
        Some(d) => Some(d),
        None => match steps_target_fault(env.steps@) {
            Some(d) => Some(d),
            None => match env.verify {
                Some(v) => target_fault(v.check@),
                None => None,
            },
        },
    }
}

fn target_fault_exec(cap: &Capability) -> (r: Option<String>)
    ensures
        opt_chars(r) == target_fault(cap@),
{
    if let Some(unit) = capability_unit(cap) {
        if !is_valid_unit(unit) {
            let d = debug_quoted(unit);
            return Some(cat("invalid unit name: ", d.as_str()));
        }
    }
    let ids = capability_kube_ids(cap);
    let ghost all = kube_ids(cap@);
    let mut k: usize = 0;
    assert(all.skip(0) =~= all);
    while k < ids.len()
        invariant
            k <= ids@.len(),
            ids@.len() == all.len(),
            forall|m: int| 0 <= m < ids@.len() ==> (#[trigger] ids@[m].0@, ids@[m].1@) == all[m],
            target_fault(cap@) == ids_fault(all),
            ids_fault(all) == ids_fault(all.skip(k as int)),
        decreases ids@.len() - k,
    {
        assert(all.skip(k as int)[0] == all[k as int]);
        assert(all.skip(k as int).drop_first() =~= all.skip(k + 1));
        let (field, value) = ids[k];
        assert((field@, value@) == all[k as int]);
        if !is_valid_k8s_label(value) {
            let d = debug_quoted(value);
            let a = cat("invalid Kubernetes identifier for ", field);
            let b = cat(a.as_str(), ": ");
            let r = cat(b.as_str(), d.as_str());
            return Some(r);
        }
        k = k + 1;
    }
    None
}

/// The first invalid identifier the envelope targets, as rejection text.
pub fn envelope_fault(env: &CommandEnvelope) -> (r: Option<String>)
    ensures
        opt_chars(r) == envelope_target_fault(*env),
{
    let mut i: usize = 0;
    assert(env.preconditions@.skip(0) =~= env.preconditions@);
    while i < env.preconditions.len()
        invariant
            i <= env.preconditions@.len(),
            conditions_target_fault(env.preconditions@) == conditions_target_fault(
                env.preconditions@.skip(i as int),
            ),
        decreases env.preconditions@.len() - i,
    {
        assert(env.preconditions@.skip(i as int)[0] == env.preconditions@[i as int]);
        assert(env.preconditions@.skip(i as int).drop_first() =~= env.preconditions@.skip(i + 1));
        let f = target_fault_exec(&env.preconditions[i].check);
        if f.is_some() {
            return f;
        }
        i = i + 1;
    }
    assert(env.preconditions@.skip(i as int).len() == 0);
    let mut j: usize = 0;
    assert(env.steps@.skip(0) =~= env.steps@);
    while j < env.steps.len()
        invariant
            j <= env.steps@.len(),
            conditions_target_fault(env.preconditions@) is None,
            steps_target_fault(env.steps@) == steps_target_fault(env.steps@.skip(j as int)),
        decreases env.steps@.len() - j,
    {
        assert(env.steps@.skip(j as int)[0] == env.steps@[j as int]);
        assert(env.steps@.skip(j as int).drop_first() =~= env.steps@.skip(j + 1));
        let f = target_fault_exec(&env.steps[j]);
        if f.is_some() {
            return f;
        }
        j = j + 1;
    }
    assert(env.steps@.skip(j as int).len() == 0);
    match &env.verify {
        Some(v) => target_fault_exec(&v.check),
        None => None,
    }
}

/// The rejection text the host actuator gives an envelope with Kubernetes
/// capabilities.
pub open spec fn kube_routing_text() -> Seq<char> {
    "command contains Kubernetes capabilities; route to the in-cluster K8s executor (#146)"@
}

/// The result the actuator reports for a command, stamped at `now`.
pub open spec fn report(
    env: CommandEnvelope,
    status: ActionStatus,
    detail: Option<Seq<char>>,
    observed: Option<Seq<char>>,
    now: i64,
) -> ResultView {
    ResultView {
        command_id: env.command_id,
        status,
        detail,
        observed_state: observed,
        finished_at: now,
    }
}

fn make_report(
    env: &CommandEnvelope,
    status: ActionStatus,
    detail: Option<String>,
    observed: Option<String>,
    now: i64,
) -> (r: ActionResult)
    ensures
        r@ == report(*env, status, opt_chars(detail), opt_chars(observed), now),
{
    ActionResult { command_id: env.command_id, status, detail, observed_state: observed, finished_at: now }
}

/// The host actuator's gate: an envelope with any Kubernetes capability is
/// rejected outright (it must go to the in-cluster executor); any other
/// envelope passes to the command state machine.
pub fn host_gate(env: &CommandEnvelope, now: i64) -> (r: Option<ActionResult>)
    ensures
        r is Some <==> has_kube_capability(*env),
        r matches Some(x) ==> x@ == report(
            *env,
            ActionStatus::Rejected,
            Some(kube_routing_text()),
            None,
            now,
        ),
{
    if envelope_contains_kube_capability(env) {
        let text = "command contains Kubernetes capabilities; route to the in-cluster K8s executor (#146)";
        Some(make_report(env, ActionStatus::Rejected, Some(text.to_string()), None, now))
    } else {
        None
    }
}

/// Where a command run stands: the outcome it waits for, or its result.
#[derive(Debug, Clone, PartialEq, Eq)]
pub enum Stage {
    /// Waiting for the outcome of the precondition check at this index.
    Precondition(usize),
    /// Waiting for the outcome of the step at this index.
    Step(usize),
    /// Waiting for the outcome of the verify check; the check has until
    /// `deadline` (microseconds since the epoch) to observe the expected state.
    Verify { deadline: i128 },
    /// Waiting for the outcome of the NixOS rollback that follows a failed
    /// verification, described by `detail`, which last observed `observed`.
    Rollback { detail: String, observed: String },
    /// The command is finished with this result.
    Done(ActionResult),
}

/// The mathematical content of a [`Stage`].
pub ghost enum StageView {
    Precondition(nat),
    Step(nat),
    Verify { deadline: i128 },
    Rollback { detail: Seq<char>, observed: Seq<char> },
    Done(ResultView),
}

impl View for Stage {
    type V = StageView;

    open spec fn view(&self) -> StageView {
        match self {
            Stage::Precondition(i) => StageView::Precondition(*i as nat),
            Stage::Step(j) => StageView::Step(*j as nat),
            Stage::Verify { deadline } => StageView::Verify { deadline: *deadline },
            Stage::Rollback { detail, observed } => StageView::Rollback {
                detail: detail@,
                observed: observed@,
            },
            Stage::Done(r) => StageView::Done(r@),
        }
    }
}

/// What the caller must do next for a command run.
#[derive(Debug, Clone, PartialEq, Eq)]
pub enum Action {
    /// Run this capability now and hand back its outcome.
    Run(Capability),
    /// Wait [`VERIFY_POLL_INTERVAL_MS`], then run this capability and hand
    /// back its outcome.
    RunAfterPoll(Capability),
    /// The command is finished: report this result.
    Report(ActionResult),
}

/// The mathematical content of an [`Action`].
pub ghost enum ActionView {
    Run(CapabilityView),
    RunAfterPoll(CapabilityView),
    Report(ResultView),
}

impl View for Action {
    type V = ActionView;

    open spec fn view(&self) -> ActionView {
        match self {
            Action::Run(c) => ActionView::Run(c@),
            Action::RunAfterPoll(c) => ActionView::RunAfterPoll(c@),
            Action::Report(r) => ActionView::Report(r@),
        }
    }
}

/// An outcome as the state machine reads it: the observed text (an absent
/// observation reads as empty), or the error's text.
pub open spec fn outcome_view(o: Result<Option<String>, ExecError>) -> Result<Seq<char>, Seq<char>> {
    match o {
        Ok(Some(s)) => Ok(s@),
        Ok(None) => Ok(seq![]),
        Err(e) => Err(e.0@),
    }
}

/// `Some(s)` unless `s` is empty.
pub open spec fn nonempty(s: Seq<char>) -> Option<Seq<char>> {
    if s.len() == 0 {
        None
    } else {
        Some(s)
    }
}

/// Finish with result `r`.
pub open spec fn finish(r: ResultView) -> (StageView, ActionView) {
    (StageView::Done(r), ActionView::Report(r))
}

/// Whether `stage` is a stage a run of `env` can be in.
pub open spec fn stage_fits(env: CommandEnvelope, stage: StageView) -> bool {
    match stage {
        StageView::Precondition(i) => i < env.preconditions@.len(),
        StageView::Step(j) => j < env.steps@.len(),
        StageView::Verify { .. } => env.verify is Some,
        StageView::Rollback { .. } => env.rollback == Rollback::NixGeneration,
        StageView::Done(r) => r.command_id == env.command_id,
    }
}

/// Run step `j` (or, past the last step, the verify check; without one the
/// command has succeeded).
pub open spec fn from_step(env: CommandEnvelope, j: nat, now: i64) -> (StageView, ActionView) {
    if j < env.steps@.len() {
        (StageView::Step(j), ActionView::Run(env.steps@[j as int]@))
    } else {
        match env.verify {
            Some(v) => (
                StageView::Verify { deadline: (now + v.timeout_s * 1_000_000) as i128 },
                ActionView::Run(v.check@),
            ),
            None => finish(report(env, ActionStatus::Succeeded, None, None, now)),
        }
    }
}

/// Run precondition check `i` (or, past the last one, the first step).
pub open spec fn from_precondition(env: CommandEnvelope, i: nat, now: i64) -> (
    StageView,
    ActionView,
) {
    if i < env.preconditions@.len() {
        (StageView::Precondition(i), ActionView::Run(env.preconditions@[i as int].check@))
    } else {
        from_step(env, 0, now)
    }
}

/// Verification failed as `detail` says, having last observed `observed`:
/// roll back if the envelope declares a rollback, otherwise fail.
pub open spec fn after_verify_failure(
    env: CommandEnvelope,
    detail: Seq<char>,
    observed: Seq<char>,
    now: i64,
) -> (StageView, ActionView) {
    match env.rollback {
        Rollback::NoAction => finish(
            report(env, ActionStatus::Failed, Some(detail), nonempty(observed), now),
        ),
        Rollback::NixGeneration => (
            StageView::Rollback { detail, observed },
            ActionView::Run(CapabilityView::NixRollback),
        ),
    }
}

/// The text reporting an expected and an observed state.
pub open spec fn mismatch_text(lead: Seq<char>, expected: Seq<char>, observed: Seq<char>) -> Seq<
    char,
> {
    lead + debug_str(expected) + ", observed "@ + debug_str(observed)
}

/// The text of a verification failure followed by a successful rollback.
pub open spec fn rolled_back_text(detail: Seq<char>) -> Seq<char> {
    detail + "; rolled back to the previous NixOS generation"@
}

/// The text of a verification failure followed by a failed rollback.
pub open spec fn frozen_text(detail: Seq<char>, err: Seq<char>) -> Seq<char> {
    detail + "; rollback FAILED ("@ + err + ") \u{2014} target frozen, escalate to a human"@
}

/// The next stage and action of a run of `env` in `stage`, given the outcome
/// of the capability it asked for and the time `now`.
pub open spec fn next(
    env: CommandEnvelope,
    stage: StageView,
    outcome: Result<Seq<char>, Seq<char>>,
    now: i64,
) -> (StageView, ActionView) {
    match stage {
        StageView::Precondition(i) => {
            let cond = env.preconditions@[i as int];
            match outcome {
                Ok(obs) => if obs == cond.equals@ {
                    from_precondition(env, i + 1, now)
                } else {
                    finish(
                        report(
                            env,
                            ActionStatus::PreconditionFailed,
                            Some(
                                mismatch_text(
                                    "precondition failed: expected "@,
                                    cond.equals@,
                                    obs,
                                ),
                            ),
                            Some(obs),
                            now,
                        ),
                    )
                },
                Err(e) => finish(
                    report(
                        env,
                        ActionStatus::Failed,
                        Some("precondition check errored: "@ + e),
                        None,
                        now,
                    ),
                ),
            }
        },
        StageView::Step(j) => match outcome {
            Ok(_) => from_step(env, j + 1, now),
            Err(e) => finish(
                report(env, ActionStatus::Failed, Some("step failed: "@ + e), None, now),
            ),
        },
        StageView::Verify { deadline } => {
            let v = env.verify->0;
            match outcome {
                Ok(obs) => if obs == v.equals@ {
                    finish(report(env, ActionStatus::Succeeded, None, Some(obs), now))
                } else if now >= deadline {
                    after_verify_failure(
                        env,
                        mismatch_text("verify failed: expected "@, v.equals@, obs),
                        obs,
                        now,
                    )
                } else {
                    (StageView::Verify { deadline }, ActionView::RunAfterPoll(v.check@))
                },
                Err(e) => after_verify_failure(env, "verify check errored: "@ + e, seq![], now),
            }
        },
        StageView::Rollback { detail, observed } => match outcome {
            Ok(_) => finish(
                report(
                    env,
                    ActionStatus::Failed,
                    Some(rolled_back_text(detail)),
                    nonempty(observed),
                    now,
                ),
            ),
            Err(e) => finish(
                report(
                    env,
                    ActionStatus::Frozen,
                    Some(frozen_text(detail, e)),
                    nonempty(observed),
                    now,
                ),
            ),
        },
        StageView::Done(r) => finish(r),
    }
}

/// How a run of `env` starts at time `now`, given the outcome `check` of its
/// signature and expiry check: a failed check is rejected with the failure's
/// text, an envelope that targets an invalid identifier is rejected naming
/// it, and otherwise the first precondition check (or step) runs.
pub open spec fn start(check: Result<(), VerifyError>, env: CommandEnvelope, now: i64) -> (
    StageView,
    ActionView,
) {
    match check {
        Err(e) => finish(
            report(env, ActionStatus::Rejected, Some(verify_error_text(e)), None, now),
        ),
        Ok(_) => match envelope_target_fault(env) {
            Some(d) => finish(report(env, ActionStatus::Rejected, Some(d), None, now)),
            None => from_precondition(env, 0, now),
        },
    }
}

/// One command being handled: its envelope and the stage it has reached.
pub struct CommandRun {
    env: CommandEnvelope,
    stage: Stage,
}

impl CommandRun {
    #[verifier::type_invariant]
    spec fn well_formed(self) -> bool {
        stage_fits(self.env, self.stage@)
    }

    /// The envelope being handled.
    pub closed spec fn envelope(self) -> CommandEnvelope {
        self.env
    }

    /// The stage the run has reached.
    pub closed spec fn stage(self) -> StageView {
        self.stage@
    }

    /// The envelope being handled.
    pub fn envelope_ref(&self) -> (r: &CommandEnvelope)
        ensures
            *r == self.envelope(),
    {
        &self.env
    }

    fn done(r: ActionResult) -> (p: (Stage, Action))
        ensures
            (p.0@, p.1@) == finish(r@),
    {
        (Stage::Done(r.copy()), Action::Report(r))
    }

    fn from_step_exec(env: &CommandEnvelope, j: usize, now: i64) -> (p: (Stage, Action))
        requires
            j <= env.steps@.len(),
        ensures
            (p.0@, p.1@) == from_step(*env, j as nat, now),
            stage_fits(*env, p.0@),
    {
        if j < env.steps.len() {
            (Stage::Step(j), Action::Run(env.steps[j].copy()))
        } else {
            match &env.verify {
                Some(v) => {
                    let deadline = now as i128 + v.timeout_s as i128 * 1_000_000;
                    (Stage::Verify { deadline }, Action::Run(v.check.copy()))
                },
                None => Self::done(make_report(env, ActionStatus::Succeeded, None, None, now)),
            }
        }
    }

    fn from_precondition_exec(env: &CommandEnvelope, i: usize, now: i64) -> (p: (Stage, Action))
        requires
            i <= env.preconditions@.len(),
        ensures
            (p.0@, p.1@) == from_precondition(*env, i as nat, now),
            stage_fits(*env, p.0@),
    {
        if i < env.preconditions.len() {
            (Stage::Precondition(i), Action::Run(env.preconditions[i].check.copy()))
        } else {
            Self::from_step_exec(env, 0, now)
        }
    }

    fn after_verify_failure_exec(
        env: &CommandEnvelope,
        detail: String,
        observed: String,
        now: i64,
    ) -> (p: (Stage, Action))
        ensures
            (p.0@, p.1@) == after_verify_failure(*env, detail@, observed@, now),
            stage_fits(*env, p.0@),
    {
        match env.rollback {
            Rollback::NoAction => {
                let obs = if observed.as_str().is_empty() {
                    None
                } else {
                    Some(observed)
                };
                Self::done(make_report(env, ActionStatus::Failed, Some(detail), obs, now))
            },
            Rollback::NixGeneration => (
                Stage::Rollback { detail, observed },
                Action::Run(Capability::NixRollback),
            ),
        }
    }

    fn begin_checked(check: Result<(), VerifyError>, env: CommandEnvelope, now: i64) -> (r: (
        CommandRun,
        Action,
    ))
        ensures
            r.0.envelope() == env,
            (r.0.stage(), r.1@) == start(check, env, now),
    {
        let (stage, action) = match check {
            Err(e) => {
                let text = e.message().to_string();
                Self::done(make_report(&env, ActionStatus::Rejected, Some(text), None, now))
            },
            Ok(_) => match envelope_fault(&env) {
                Some(d) => Self::done(make_report(&env, ActionStatus::Rejected, Some(d), None, now)),
                None => Self::from_precondition_exec(&env, 0, now),
            },
        };
        (CommandRun { env, stage }, action)
    }

    /// Start handling `env` at time `now`, `payload` being its canonical
    /// signed bytes: check the signature and expiry under `key`, validate every
    /// targeted identifier, then ask for the first precondition check (or
    /// step). Nothing runs unless both checks pass.
    pub fn begin(key: &PublicKey, env: CommandEnvelope, payload: &[u8], now: i64) -> (r: (
        CommandRun,
        Action,
    ))
        ensures
            r.0.envelope() == env,
            (r.0.stage(), r.1@) == start(envelope_check(key.spec_bytes(), env, payload@, now), env, now),
    {
        let check = verify_envelope(key, &env, payload, now);
        Self::begin_checked(check, env, now)
    }

    /// Start handling `env` as [`CommandRun::begin`] does, checking the
    /// signature under the key the keyring selects for it.
    pub fn begin_with(ring: &Keyring, env: CommandEnvelope, payload: &[u8], now: i64) -> (r: (
        CommandRun,
        Action,
    ))
        ensures
            r.0.envelope() == env,
            (r.0.stage(), r.1@) == start(ring_check(*ring, env, payload@, now), env, now),
    {
        let check = verify_envelope_with(ring, &env, payload, now);
        Self::begin_checked(check, env, now)
    }

    fn decide(&self, outcome: Result<String, String>, now: i64) -> (p: (Stage, Action))
        ensures
            (p.0@, p.1@) == next(
                self.env,
                self.stage@,
                match outcome {
                    Ok(s) => Ok(s@),
                    Err(e) => Err(e@),
                },
                now,
            ),
            stage_fits(self.env, p.0@),
    {
        proof {
            use_type_invariant(self);
        }
        let env = &self.env;
        match &self.stage {
            Stage::Precondition(i) => {
                // Reading the length bounds it, so `*i + 1` below cannot overflow.
                let _len = env.preconditions.len();
                let cond = &env.preconditions[*i];
                match outcome {
                    Ok(obs) => if obs == cond.equals {
                        Self::from_precondition_exec(env, *i + 1, now)
                    } else {
                        let e = debug_quoted(cond.equals.as_str());
                        let o = debug_quoted(obs.as_str());
                        let a = cat("precondition failed: expected ", e.as_str());
                        let b = cat(a.as_str(), ", observed ");
                        let d = cat(b.as_str(), o.as_str());
                        Self::done(
                            make_report(env, ActionStatus::PreconditionFailed, Some(d), Some(obs), now),
                        )
                    },
                    Err(err) => {
                        let d = cat("precondition check errored: ", err.as_str());
                        Self::done(make_report(env, ActionStatus::Failed, Some(d), None, now))
                    },
                }
            },
            Stage::Step(j) => match outcome {
                Ok(_) => {
                    // Reading the length bounds it, so `*j + 1` cannot overflow.
                    let _len = env.steps.len();
                    Self::from_step_exec(env, *j + 1, now)
                },
                Err(err) => {
                    let d = cat("step failed: ", err.as_str());
                    Self::done(make_report(env, ActionStatus::Failed, Some(d), None, now))
                },
            },
            Stage::Verify { deadline } => {
                let v = match &env.verify {
                    Some(v) => v,
                    None => {
                        proof {
                            assert(false);
                        }
                        return Self::done(make_report(env, ActionStatus::Failed, None, None, now));
                    },
                };
                match outcome {
                    Ok(obs) => if obs == v.equals {
                        Self::done(make_report(env, ActionStatus::Succeeded, None, Some(obs), now))
                    } else if now as i128 >= *deadline {
                        let e = debug_quoted(v.equals.as_str());
                        let o = debug_quoted(obs.as_str());
                        let a = cat("verify failed: expected ", e.as_str());
                        let b = cat(a.as_str(), ", observed ");
                        let d = cat(b.as_str(), o.as_str());
                        Self::after_verify_failure_exec(env, d, obs, now)
                    } else {
                        (Stage::Verify { deadline: *deadline }, Action::RunAfterPoll(v.check.copy()))
                    },
                    Err(err) => {
                        let d = cat("verify check errored: ", err.as_str());
                        Self::after_verify_failure_exec(env, d, String::new(), now)
                    },
                }
            },
            Stage::Rollback { detail, observed } => {
                let obs = if observed.as_str().is_empty() {
                    None
                } else {
                    Some(observed.clone())
                };
                match outcome {
                    Ok(_) => {
                        let d = cat(
                            detail.as_str(),
                            "; rolled back to the previous NixOS generation",
                        );
                        Self::done(make_report(env, ActionStatus::Failed, Some(d), obs, now))
                    },
                    Err(err) => {
                        let a = cat(detail.as_str(), "; rollback FAILED (");
                        let b = cat(a.as_str(), err.as_str());
                        let d = cat(b.as_str(), ") \u{2014} target frozen, escalate to a human");
                        Self::done(make_report(env, ActionStatus::Frozen, Some(d), obs, now))
                    },
                }
            },
            Stage::Done(r) => Self::done(r.copy()),
        }
    }

    /// Hand back the outcome of the capability the last action asked for,
    /// observed by time `now`; returns what to do next. A verify check that
    /// does not yet show the expected state is polled again until its
    /// deadline has passed.
    pub fn resume(&mut self, outcome: Result<Option<String>, ExecError>, now: i64) -> (a: Action)
        ensures
            final(self).envelope() == old(self).envelope(),
            (final(self).stage(), a@) == next(
                old(self).envelope(),
                old(self).stage(),
                outcome_view(outcome),
                now,
            ),
    {
        let o: Result<String, String> = match outcome {
            Ok(Some(s)) => Ok(s),
            Ok(None) => Ok(String::new()),
            Err(e) => Err(e.0),
        };
        let (stage, action) = self.decide(o, now);
        self.stage = stage;
        action
    }
}

/// Nothing runs unless the envelope's signature and expiry check passes and
/// every identifier it targets is valid; a failed check is answered
/// `Rejected` with the failure's text.
pub proof fn nothing_runs_before_both_checks(
    check: Result<(), VerifyError>,
    env: CommandEnvelope,
    now: i64,
)
    ensures
        start(check, env, now).1 is Run ==> check is Ok && envelope_target_fault(env) is None,
        check matches Err(e) ==> start(check, env, now) == finish(
            report(env, ActionStatus::Rejected, Some(verify_error_text(e)), None, now),
        ),
        check is Ok && envelope_target_fault(env) is Some ==> start(check, env, now) == finish(
            report(env, ActionStatus::Rejected, envelope_target_fault(env), None, now),
        ),
{
}

/// A precondition that does not observe its expected state ends the command
/// as `PreconditionFailed`, reporting what it observed, before any step runs.
pub proof fn failed_precondition_stops_before_steps(
    env: CommandEnvelope,
    i: nat,
    obs: Seq<char>,
    now: i64,
)
    requires
        i < env.preconditions@.len(),
        obs != env.preconditions@[i as int].equals@,
    ensures
        next(env, StageView::Precondition(i), Ok(obs), now) == finish(
            report(
                env,
                ActionStatus::PreconditionFailed,
                Some(
                    mismatch_text(
                        "precondition failed: expected "@,
                        env.preconditions@[i as int].equals@,
                        obs,
                    ),
                ),
                Some(obs),
                now,
            ),
        ),
{
}

/// The first step is only asked for once the last precondition has observed
/// its expected state.
pub proof fn steps_run_only_after_every_precondition_held(
    env: CommandEnvelope,
    i: nat,
    outcome: Result<Seq<char>, Seq<char>>,
    now: i64,
)
    requires
        i < env.preconditions@.len(),
        next(env, StageView::Precondition(i), outcome, now).0 is Step,
    ensures
        i + 1 == env.preconditions@.len(),
        outcome == Ok::<Seq<char>, Seq<char>>(env.preconditions@[i as int].equals@),
{
}

/// A failed step ends the command as `Failed`; no later step and no verify
/// check runs.
pub proof fn step_failure_skips_verify(env: CommandEnvelope, j: nat, err: Seq<char>, now: i64)
    requires
        j < env.steps@.len(),
    ensures
        next(env, StageView::Step(j), Err(err), now) == finish(
            report(env, ActionStatus::Failed, Some("step failed: "@ + err), None, now),
        ),
{
}

/// When the verify check still shows the wrong state at its deadline, a
/// declared NixOS rollback runs; without one the command is plain `Failed`.
pub proof fn verify_failure_rolls_back_when_declared(
    env: CommandEnvelope,
    deadline: i128,
    obs: Seq<char>,
    now: i64,
)
    requires
        env.verify matches Some(v) && obs != v.equals@,
        now >= deadline,
    ensures
        env.rollback == Rollback::NixGeneration ==> next(
            env,
            StageView::Verify { deadline },
            Ok(obs),
            now,
        ).1 == ActionView::Run(CapabilityView::NixRollback),
        env.rollback == Rollback::NoAction ==> (next(
            env,
            StageView::Verify { deadline },
            Ok(obs),
            now,
        ).1 matches ActionView::Report(r) && r.status == ActionStatus::Failed),
{
}

/// A rollback that itself fails leaves the target `Frozen`; one that succeeds
/// still reports the command `Failed`.
pub proof fn failed_rollback_freezes(
    env: CommandEnvelope,
    detail: Seq<char>,
    observed: Seq<char>,
    outcome: Result<Seq<char>, Seq<char>>,
    now: i64,
)
    ensures
        next(env, StageView::Rollback { detail, observed }, outcome, now).1 matches ActionView::Report(
            r,
        ) && r.status == (if outcome is Ok {
            ActionStatus::Failed
        } else {
            ActionStatus::Frozen
        }),
{
}

/// A command with a verify post-condition only succeeds from the verify
/// stage, on observing exactly the expected state, which it reports.
pub proof fn success_means_verified(
    env: CommandEnvelope,
    stage: StageView,
    outcome: Result<Seq<char>, Seq<char>>,
    now: i64,
)
    requires
        stage_fits(env, stage),
        !(stage is Done),
        env.verify is Some,
        next(env, stage, outcome, now).1 matches ActionView::Report(r) && r.status
            == ActionStatus::Succeeded,
    ensures
        stage is Verify,
        outcome == Ok::<Seq<char>, Seq<char>>(env.verify->0.equals@),
        next(env, stage, outcome, now).1 matches ActionView::Report(r) && r.observed_state == Some(
            env.verify->0.equals@,
        ),
{
}

/// Every stage a run reaches fits its envelope, so every result it reports
/// names the command it was handling.
pub proof fn reports_name_the_command(
    env: CommandEnvelope,
    stage: StageView,
    outcome: Result<Seq<char>, Seq<char>>,
    now: i64,
)
    requires
        stage_fits(env, stage),
    ensures
        stage_fits(env, next(env, stage, outcome, now).0),
        next(env, stage, outcome, now).1 matches ActionView::Report(r) ==> r.command_id
            == env.command_id,
{
}

} // verus!
