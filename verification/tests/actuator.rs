use ravn::actuator::{
    envelope_contains_kube_capability, host_gate, is_valid_unit, Action, CommandRun, ExecError,
};
use ravn::command::{is_valid_k8s_label, ActionResult, ActionStatus, ApprovalRef, CommandEnvelope};
use ravn::crypto::{attach_signature, generate_signing_key, stamp_key_id, SecretKey};
use ravn::keyring::Keyring;
use ravn::remediation::{Capability, Condition, RiskTier, Rollback, Verify};

const NOW: i64 = 1_700_000_000_000_000;
const MINUTE: i64 = 60_000_000;

/// The canonical bytes these tests sign: the envelope's debug text without
/// its signature.
fn payload(env: &CommandEnvelope) -> Vec<u8> {
    let mut e = env.clone();
    e.sig = None;
    format!("{e:?}").into_bytes()
}

fn sign(key: &SecretKey, env: &mut CommandEnvelope) {
    stamp_key_id(key, env);
    let p = payload(env);
    attach_signature(key, env, &p);
}

struct Opts {
    verify_equals: Option<&'static str>,
    precondition_equals: Option<&'static str>,
    rollback: Rollback,
    verify_timeout_s: u64,
}

impl Default for Opts {
    fn default() -> Self {
        Opts { verify_equals: None, precondition_equals: None, rollback: Rollback::NoAction, verify_timeout_s: 1 }
    }
}

fn envelope(opts: Opts) -> CommandEnvelope {
    CommandEnvelope {
        command_id: 7,
        agent_id: 9,
        template_id: "failed-unit-restart".into(),
        template_version: 3,
        risk_tier: RiskTier::Safe,
        preconditions: opts
            .precondition_equals
            .map(|eq| {
                vec![Condition {
                    check: Capability::UnitState { unit: "nginx.service".into() },
                    equals: eq.into(),
                }]
            })
            .unwrap_or_default(),
        steps: vec![
            Capability::ResetFailed { unit: "nginx.service".into() },
            Capability::RestartUnit { unit: "nginx.service".into() },
        ],
        verify: opts.verify_equals.map(|eq| Verify {
            check: Capability::UnitState { unit: "nginx.service".into() },
            equals: eq.into(),
            timeout_s: opts.verify_timeout_s,
        }),
        rollback: opts.rollback,
        approval_ref: ApprovalRef::PolicyAuto,
        nonce: "n1".into(),
        issued_at: NOW,
        expires_at: NOW + 5 * MINUTE,
        kid: None,
        sig: None,
    }
}

fn signed(key: &SecretKey, opts: Opts) -> CommandEnvelope {
    let mut env = envelope(opts);
    sign(key, &mut env);
    env
}

fn kube_envelope(key: &SecretKey, namespace: &str, pod: &str) -> CommandEnvelope {
    let mut env = envelope(Opts::default());
    env.template_id = "k8s-pod-restart".into();
    env.risk_tier = RiskTier::Guarded;
    env.steps = vec![Capability::DeletePod { namespace: namespace.into(), pod: pod.into() }];
    sign(key, &mut env);
    env
}

/// A scripted executor: records what ran; unit-state checks report
/// `unit_state` (or the next of `states`), restarts and rollbacks can fail.
struct Mock {
    ran: Vec<Capability>,
    unit_state: String,
    states: Vec<String>,
    fail_on_restart: bool,
    fail_on_rollback: bool,
}

impl Mock {
    fn new(state: &str) -> Self {
        Mock { ran: vec![], unit_state: state.into(), states: vec![], fail_on_restart: false, fail_on_rollback: false }
    }

    fn run(&mut self, cap: &Capability) -> Result<Option<String>, ExecError> {
        self.ran.push(cap.clone());
        match cap {
            Capability::RestartUnit { .. } if self.fail_on_restart => {
                Err(ExecError("unit refused to start".into()))
            }
            Capability::NixRollback if self.fail_on_rollback => {
                Err(ExecError("switch-to-configuration failed".into()))
            }
            Capability::UnitState { .. } => {
                if self.states.is_empty() {
                    Ok(Some(self.unit_state.clone()))
                } else {
                    Ok(Some(self.states.remove(0)))
                }
            }
            _ => Ok(None),
        }
    }
}

/// Drive a command to its result; each poll advances the clock by half a
/// second, as the actuator's poll interval does.
fn handle(key: &SecretKey, env: &CommandEnvelope, exec: &mut Mock) -> ActionResult {
    let mut now = NOW;
    let (mut run, mut action) = CommandRun::begin(&key.public_key(), env.clone(), &payload(env), now);
    loop {
        match action {
            Action::Run(cap) => {
                let outcome = exec.run(&cap);
                action = run.resume(outcome, now);
            }
            Action::RunAfterPoll(cap) => {
                now += 500_000;
                let outcome = exec.run(&cap);
                action = run.resume(outcome, now);
            }
            Action::Report(r) => return r,
        }
    }
}

#[test]
fn happy_path_runs_steps_and_verifies() {
    let key = generate_signing_key();
    let env = signed(&key, Opts { verify_equals: Some("active"), ..Default::default() });
    let mut exec = Mock::new("active");
    let result = handle(&key, &env, &mut exec);
    assert_eq!(result.status, ActionStatus::Succeeded);
    assert_eq!(result.observed_state.as_deref(), Some("active"));
    assert_eq!(result.command_id, 7);
    assert_eq!(exec.ran.len(), 3);
}

#[test]
fn verify_mismatch_is_failed() {
    let key = generate_signing_key();
    let env = signed(&key, Opts { verify_equals: Some("active"), ..Default::default() });
    let mut exec = Mock::new("failed");
    let result = handle(&key, &env, &mut exec);
    assert_eq!(result.status, ActionStatus::Failed);
    assert_eq!(result.observed_state.as_deref(), Some("failed"));
    assert_eq!(
        result.detail.as_deref(),
        Some("verify failed: expected \"active\", observed \"failed\"")
    );
}

#[test]
fn step_failure_is_failed_and_skips_verify() {
    let key = generate_signing_key();
    let env = signed(&key, Opts { verify_equals: Some("active"), ..Default::default() });
    let mut exec = Mock::new("active");
    exec.fail_on_restart = true;
    let result = handle(&key, &env, &mut exec);
    assert_eq!(result.status, ActionStatus::Failed);
    assert_eq!(result.detail.as_deref(), Some("step failed: unit refused to start"));
    assert!(!exec.ran.iter().any(|c| matches!(c, Capability::UnitState { .. })));
}

#[test]
fn forged_signature_is_rejected() {
    let key = generate_signing_key();
    let attacker = generate_signing_key();
    let env = signed(&attacker, Opts { verify_equals: Some("active"), ..Default::default() });
    let mut exec = Mock::new("active");
    let result = handle(&key, &env, &mut exec);
    assert_eq!(result.status, ActionStatus::Rejected);
    assert_eq!(result.detail.as_deref(), Some("command signature does not verify"));
    assert!(exec.ran.is_empty(), "nothing runs on a bad signature");
}

#[test]
fn expired_command_is_rejected_before_anything_runs() {
    let key = generate_signing_key();
    let mut env = envelope(Opts::default());
    env.expires_at = NOW - MINUTE;
    sign(&key, &mut env);
    let mut exec = Mock::new("active");
    let result = handle(&key, &env, &mut exec);
    assert_eq!(result.status, ActionStatus::Rejected);
    assert_eq!(result.detail.as_deref(), Some("command envelope has expired"));
    assert!(exec.ran.is_empty());
}

#[test]
fn invalid_unit_name_is_rejected_before_execution() {
    let key = generate_signing_key();
    let mut env = envelope(Opts::default());
    env.steps = vec![Capability::RestartUnit { unit: "nginx.service; rm -rf /".into() }];
    sign(&key, &mut env);
    let mut exec = Mock::new("active");
    let result = handle(&key, &env, &mut exec);
    assert_eq!(result.status, ActionStatus::Rejected);
    assert_eq!(result.detail.as_deref(), Some("invalid unit name: \"nginx.service; rm -rf /\""));
    assert!(exec.ran.is_empty());
}

#[test]
fn valid_unit_names_accepted_bad_ones_rejected() {
    assert!(is_valid_unit("nginx.service"));
    assert!(is_valid_unit("getty@tty1.service"));
    assert!(!is_valid_unit("nginx.service rm -rf"));
    assert!(!is_valid_unit("a/b.service"));
    assert!(!is_valid_unit(""));
}

#[test]
fn unit_names_are_capped_at_256_characters() {
    assert!(is_valid_unit(&"a".repeat(256)));
    assert!(!is_valid_unit(&"a".repeat(257)));
    assert!(is_valid_unit("systemd-fsck@dev-disk-by\\x2duuid.service"));
}

#[test]
fn valid_k8s_pod_restart_passes_validation() {
    let key = generate_signing_key();
    let env = kube_envelope(&key, "payments", "api-7d9f");
    let mut exec = Mock::new("active");
    let result = handle(&key, &env, &mut exec);
    assert_ne!(result.status, ActionStatus::Rejected, "valid K8s identifiers must pass");
    assert_eq!(result.status, ActionStatus::Succeeded);
}

#[test]
fn host_actuator_guard_flags_kube_capabilities() {
    let key = generate_signing_key();
    let kube = kube_envelope(&key, "payments", "api-7d9f");
    assert!(envelope_contains_kube_capability(&kube));
    let systemd = signed(&key, Opts::default());
    assert!(!envelope_contains_kube_capability(&systemd));
}

#[test]
fn host_gate_rejects_kube_envelopes_with_routing_text() {
    let key = generate_signing_key();
    let kube = kube_envelope(&key, "payments", "api-7d9f");
    let r = host_gate(&kube, NOW).expect("a K8s envelope is refused at the host socket");
    assert_eq!(r.status, ActionStatus::Rejected);
    assert_eq!(r.command_id, 7);
    assert_eq!(
        r.detail.as_deref(),
        Some("command contains Kubernetes capabilities; route to the in-cluster K8s executor (#146)")
    );
    assert!(host_gate(&signed(&key, Opts::default()), NOW).is_none());
}

#[test]
fn injection_namespace_is_rejected_before_execution() {
    let key = generate_signing_key();
    let env = kube_envelope(&key, "payments; rm -rf /", "api");
    let mut exec = Mock::new("active");
    let result = handle(&key, &env, &mut exec);
    assert_eq!(result.status, ActionStatus::Rejected, "injection namespace must be rejected");
    assert!(exec.ran.is_empty(), "no step must run on rejection");
}

#[test]
fn uppercase_namespace_is_rejected() {
    let key = generate_signing_key();
    let env = kube_envelope(&key, "Payments", "api");
    let mut exec = Mock::new("active");
    let result = handle(&key, &env, &mut exec);
    assert_eq!(result.status, ActionStatus::Rejected);
    assert!(result.detail.as_deref().unwrap().contains("namespace"));
    assert_eq!(
        result.detail.as_deref(),
        Some("invalid Kubernetes identifier for namespace: \"Payments\"")
    );
}

#[test]
fn path_traversal_pod_name_is_rejected() {
    let key = generate_signing_key();
    let env = kube_envelope(&key, "payments", "../etc/passwd");
    let mut exec = Mock::new("active");
    let result = handle(&key, &env, &mut exec);
    assert_eq!(result.status, ActionStatus::Rejected);
    assert!(result.detail.as_deref().unwrap().contains("pod"));
}

#[test]
fn empty_namespace_is_rejected() {
    let key = generate_signing_key();
    let env = kube_envelope(&key, "", "api");
    let mut exec = Mock::new("active");
    let result = handle(&key, &env, &mut exec);
    assert_eq!(result.status, ActionStatus::Rejected);
}

#[test]
fn overly_long_pod_name_is_rejected() {
    let key = generate_signing_key();
    let long_name = "a".repeat(64);
    let env = kube_envelope(&key, "payments", &long_name);
    let mut exec = Mock::new("active");
    let result = handle(&key, &env, &mut exec);
    assert_eq!(result.status, ActionStatus::Rejected);
}

#[test]
fn whitespace_in_k8s_id_is_rejected() {
    let key = generate_signing_key();
    let env = kube_envelope(&key, "pay ments", "api");
    let mut exec = Mock::new("active");
    let result = handle(&key, &env, &mut exec);
    assert_eq!(result.status, ActionStatus::Rejected);
}

#[test]
fn k8s_labels_follow_rfc_1123() {
    assert!(is_valid_k8s_label("payments"));
    assert!(is_valid_k8s_label("api-7d9f"));
    assert!(is_valid_k8s_label(&"a".repeat(63)));
    assert!(!is_valid_k8s_label(&"a".repeat(64)));
    assert!(!is_valid_k8s_label("-api"));
    assert!(!is_valid_k8s_label("api-"));
    assert!(!is_valid_k8s_label("api.v2"));
    assert!(!is_valid_k8s_label(""));
}

#[test]
fn failed_precondition_skips_all_steps() {
    let key = generate_signing_key();
    let env = signed(&key, Opts { precondition_equals: Some("failed"), ..Default::default() });
    let mut exec = Mock::new("active");
    let result = handle(&key, &env, &mut exec);
    assert_eq!(result.status, ActionStatus::PreconditionFailed);
    assert_eq!(result.observed_state.as_deref(), Some("active"));
    assert_eq!(
        result.detail.as_deref(),
        Some("precondition failed: expected \"failed\", observed \"active\"")
    );
    assert_eq!(exec.ran.len(), 1);
    assert!(matches!(exec.ran[0], Capability::UnitState { .. }));
}

#[test]
fn met_precondition_runs_steps() {
    let key = generate_signing_key();
    let env = signed(
        &key,
        Opts { precondition_equals: Some("failed"), verify_equals: Some("active"), ..Default::default() },
    );
    let mut exec = Mock::new("failed");
    let result = handle(&key, &env, &mut exec);
    assert!(exec.ran.iter().any(|c| matches!(c, Capability::RestartUnit { .. })));
    assert_ne!(result.status, ActionStatus::PreconditionFailed);
}

#[test]
fn precondition_check_error_is_failed() {
    let key = generate_signing_key();
    let mut env = signed(&key, Opts { precondition_equals: Some("failed"), ..Default::default() });
    env.preconditions[0].check = Capability::UnitState { unit: "nginx.service".into() };
    let (mut run, action) = CommandRun::begin(&key.public_key(), env.clone(), &payload(&env), NOW);
    assert!(matches!(action, Action::Run(Capability::UnitState { .. })));
    let next = run.resume(Err(ExecError("systemctl missing".into())), NOW);
    match next {
        Action::Report(r) => {
            assert_eq!(r.status, ActionStatus::Failed);
            assert_eq!(r.detail.as_deref(), Some("precondition check errored: systemctl missing"));
            assert_eq!(r.observed_state, None);
        }
        _ => panic!("a failed precondition check ends the command"),
    }
}

#[test]
fn verify_failure_triggers_nix_rollback() {
    let key = generate_signing_key();
    let env = signed(
        &key,
        Opts { verify_equals: Some("active"), rollback: Rollback::NixGeneration, ..Default::default() },
    );
    let mut exec = Mock::new("failed");
    let result = handle(&key, &env, &mut exec);
    assert_eq!(result.status, ActionStatus::Failed);
    assert!(exec.ran.iter().any(|c| matches!(c, Capability::NixRollback)));
    assert!(result.detail.as_deref().unwrap().contains("rolled back"));
    assert_eq!(
        result.detail.as_deref(),
        Some("verify failed: expected \"active\", observed \"failed\"; rolled back to the previous NixOS generation")
    );
}

#[test]
fn rollback_failure_freezes_the_target() {
    let key = generate_signing_key();
    let env = signed(
        &key,
        Opts { verify_equals: Some("active"), rollback: Rollback::NixGeneration, ..Default::default() },
    );
    let mut exec = Mock::new("failed");
    exec.fail_on_rollback = true;
    let result = handle(&key, &env, &mut exec);
    assert_eq!(result.status, ActionStatus::Frozen);
    assert!(result.detail.as_deref().unwrap().contains("frozen"));
    assert_eq!(
        result.detail.as_deref(),
        Some("verify failed: expected \"active\", observed \"failed\"; rollback FAILED (switch-to-configuration failed) \u{2014} target frozen, escalate to a human")
    );
}

#[test]
fn verify_failure_without_rollback_is_plain_failed() {
    let key = generate_signing_key();
    let env = signed(&key, Opts { verify_equals: Some("active"), ..Default::default() });
    let mut exec = Mock::new("failed");
    let result = handle(&key, &env, &mut exec);
    assert_eq!(result.status, ActionStatus::Failed);
    assert!(!exec.ran.iter().any(|c| matches!(c, Capability::NixRollback)));
}

#[test]
fn verify_check_error_rolls_back_with_no_observation() {
    let key = generate_signing_key();
    let env = signed(
        &key,
        Opts { verify_equals: Some("active"), rollback: Rollback::NixGeneration, ..Default::default() },
    );
    let (mut run, mut action) = CommandRun::begin(&key.public_key(), env.clone(), &payload(&env), NOW);
    // The two steps succeed.
    for _ in 0..2 {
        assert!(matches!(action, Action::Run(_)));
        action = run.resume(Ok(None), NOW);
    }
    assert!(matches!(action, Action::Run(Capability::UnitState { .. })));
    action = run.resume(Err(ExecError("bus error".into())), NOW);
    assert!(matches!(action, Action::Run(Capability::NixRollback)));
    match run.resume(Ok(None), NOW) {
        Action::Report(r) => {
            assert_eq!(r.status, ActionStatus::Failed);
            assert_eq!(r.observed_state, None);
            assert_eq!(
                r.detail.as_deref(),
                Some("verify check errored: bus error; rolled back to the previous NixOS generation")
            );
        }
        _ => panic!("the rollback outcome ends the command"),
    }
}

#[test]
fn verify_polling_succeeds_after_state_transition() {
    let key = generate_signing_key();
    let env = signed(&key, Opts { verify_equals: Some("active"), verify_timeout_s: 5, ..Default::default() });
    let mut exec = Mock::new("active");
    exec.states = vec!["activating".into(), "activating".into(), "active".into()];
    let result = handle(&key, &env, &mut exec);
    assert_eq!(result.status, ActionStatus::Succeeded);
    assert_eq!(result.observed_state.as_deref(), Some("active"));
}

#[test]
fn verify_polls_until_the_deadline_then_fails() {
    let key = generate_signing_key();
    let env = signed(&key, Opts { verify_equals: Some("active"), verify_timeout_s: 2, ..Default::default() });
    let mut exec = Mock::new("failed");
    let result = handle(&key, &env, &mut exec);
    assert_eq!(result.status, ActionStatus::Failed);
    // Two steps, then checks at 0 s, 0.5 s, ..., 2 s.
    let checks = exec.ran.iter().filter(|c| matches!(c, Capability::UnitState { .. })).count();
    assert_eq!(checks, 5);
}

#[test]
fn command_without_verify_succeeds_after_its_steps() {
    let key = generate_signing_key();
    let env = signed(&key, Opts::default());
    let mut exec = Mock::new("active");
    let result = handle(&key, &env, &mut exec);
    assert_eq!(result.status, ActionStatus::Succeeded);
    assert_eq!(result.observed_state, None);
    assert_eq!(result.detail, None);
    assert_eq!(result.finished_at, NOW);
}

#[test]
fn keyring_run_selects_the_named_key() {
    let old = generate_signing_key();
    let new = generate_signing_key();
    let mut ring = Keyring::single(old.public_key());
    ring.insert(new.public_key());
    let env = signed(&new, Opts::default());
    let (_run, action) = CommandRun::begin_with(&ring, env.clone(), &payload(&env), NOW);
    assert!(matches!(action, Action::Run(Capability::ResetFailed { .. })));
    let stranger = generate_signing_key();
    let forged = signed(&stranger, Opts::default());
    let (_run, action) = CommandRun::begin_with(&ring, forged.clone(), &payload(&forged), NOW);
    match action {
        Action::Report(r) => {
            assert_eq!(r.status, ActionStatus::Rejected);
            assert_eq!(r.detail.as_deref(), Some("command signed by an untrusted or retired key"));
        }
        _ => panic!("an unknown key id is refused"),
    }
}

#[test]
fn exec_error_message_is_its_text() {
    assert_eq!(ExecError("boom".into()).message(), "boom");
}
