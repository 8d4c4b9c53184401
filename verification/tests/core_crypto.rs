use ravn::command::{ApprovalRef, CommandEnvelope};
use ravn::crypto::{
    attach_signature, generate_signing_key, key_id, sign_payload, signing_key_from_b64,
    signing_key_to_b64, stamp_key_id, verify_envelope, verify_signature, verifying_key_from_b64,
    verifying_key_to_b64, KeyError, SecretKey, VerifyError,
};
use ravn::event::{
    kube_severity_for_reason, Event, FailedUnitPayload, Message, Payload, Severity, Source,
};
use ravn::keyring::{verify_envelope_with, Keyring};
use ravn::remediation::{
    default_verify_timeout, resolve_str, Capability, Condition, ParamType, ParameterSpec,
    RenderError, RiskTier, Rollback, Template, TemplateError, TemplateMatch, Verify,
};

const NOW: i64 = 1_700_000_000_000_000;
const MINUTE: i64 = 60_000_000;

fn sample_event(payload: Payload) -> Event {
    Event {
        id: 1,
        occurred_at: NOW,
        observed_at: NOW,
        agent_id: 2,
        host: "host-01".into(),
        severity: Severity::Warning,
        title: "something happened".into(),
        category_hints: vec!["prod".into()],
        payload,
    }
}

#[test]
fn severity_is_ordered() {
    assert!(Severity::Info < Severity::Critical);
    assert!(Severity::Warning < Severity::Error);
    assert!(Severity::Info.rank() < Severity::Critical.rank());
    assert!(Severity::Error.at_least(&Severity::Warning));
    assert!(!Severity::Notice.at_least(&Severity::Warning));
}

#[test]
fn source_is_derived_from_payload() {
    let ev = sample_event(Payload::FailedUnit(FailedUnitPayload {
        unit: "nginx.service".into(),
        result: "exit-code".into(),
        recent_log: vec!["boom".into()],
        extra: vec![],
    }));
    assert_eq!(ev.source(), Source::FailedUnit);
    assert_eq!(ev.source().name(), "FailedUnit");
    let msg = Message::new(ev.clone());
    assert_eq!(msg.event, ev);
    assert!(msg.explanation.is_none());
}

#[test]
fn kube_severity_mapping_is_deterministic() {
    assert_eq!(kube_severity_for_reason("OOMKilled"), Severity::Critical);
    assert_eq!(kube_severity_for_reason("CrashLoopBackOff"), Severity::Error);
    assert_eq!(kube_severity_for_reason("FailedScheduling"), Severity::Warning);
    assert_eq!(kube_severity_for_reason("Started"), Severity::Info);
    // Unknown reasons are visible but not alarming.
    assert_eq!(kube_severity_for_reason("SomethingNew"), Severity::Warning);
}

#[test]
fn severity_names_match_their_variants() {
    assert_eq!(Severity::Info.name(), "Info");
    assert_eq!(Severity::Critical.name(), "Critical");
    assert_eq!(Severity::max_of(Severity::Notice, Severity::Error), Severity::Error);
}

fn failed_unit_restart() -> Template {
    Template {
        id: "failed-unit-restart".into(),
        version: 3,
        title: "Restart a failed systemd unit".into(),
        risk_tier: RiskTier::Safe,
        match_: TemplateMatch {
            source: Source::FailedUnit,
            conditions: vec![("active_state".into(), "failed".into())],
        },
        parameters: vec![(
            "unit".into(),
            ParameterSpec { ty: ParamType::String, from: "payload.unit".into() },
        )],
        preconditions: vec![Condition {
            check: Capability::UnitState { unit: "{{unit}}".into() },
            equals: "failed".into(),
        }],
        steps: vec![
            Capability::ResetFailed { unit: "{{unit}}".into() },
            Capability::RestartUnit { unit: "{{unit}}".into() },
        ],
        verify: Some(Verify {
            check: Capability::UnitState { unit: "{{unit}}".into() },
            equals: "active".into(),
            timeout_s: 30,
        }),
        rollback: Rollback::NoAction,
    }
}

fn values(unit: &str) -> Vec<(String, String)> {
    vec![("unit".to_string(), unit.to_string())]
}

#[test]
fn example_template_parses_and_validates() {
    let tpl = failed_unit_restart();
    assert_eq!(tpl.id, "failed-unit-restart");
    assert_eq!(tpl.version, 3);
    assert_eq!(tpl.risk_tier, RiskTier::Safe);
    assert_eq!(tpl.match_.source, Source::FailedUnit);
    assert_eq!(tpl.steps.len(), 2);
    assert_eq!(tpl.verify.as_ref().unwrap().timeout_s, 30);
    assert_eq!(tpl.rollback, Rollback::NoAction);
    tpl.validate().expect("valid");
}

#[test]
fn verify_timeout_defaults_to_30() {
    assert_eq!(default_verify_timeout(), 30);
}

#[test]
fn validate_rejects_undeclared_parameter() {
    let tpl = Template {
        id: "t".into(),
        version: 1,
        title: "t".into(),
        risk_tier: RiskTier::Safe,
        match_: TemplateMatch { source: Source::FailedUnit, conditions: vec![] },
        parameters: vec![],
        preconditions: vec![],
        steps: vec![Capability::RestartUnit { unit: "{{missing}}".into() }],
        verify: None,
        rollback: Rollback::NoAction,
    };
    assert_eq!(
        tpl.validate().unwrap_err(),
        TemplateError::UndeclaredParameter("missing".to_string())
    );
}

#[test]
fn validate_rejects_mutating_check() {
    let mut tpl = failed_unit_restart();
    // Swap the verify check for a mutating capability.
    tpl.verify = Some(Verify {
        check: Capability::RestartUnit { unit: "x".into() },
        equals: "active".into(),
        timeout_s: 30,
    });
    assert_eq!(tpl.validate().unwrap_err(), TemplateError::NonReadOnlyCheck);
}

#[test]
fn validate_rejects_a_template_without_steps() {
    let mut tpl = failed_unit_restart();
    tpl.steps = vec![];
    assert_eq!(tpl.validate().unwrap_err(), TemplateError::NoSteps);
}

#[test]
fn capability_resolves_placeholders() {
    let cap = Capability::RestartUnit { unit: "{{unit}}".into() };
    let resolved = cap.resolve(&values("nginx.service")).unwrap();
    assert_eq!(resolved, Capability::RestartUnit { unit: "nginx.service".into() });
}

#[test]
fn capability_resolve_refuses_a_value_that_leaves_a_placeholder() {
    let cap = Capability::RestartUnit { unit: "{{unit}}".into() };
    let err = cap.resolve(&values("{{x}}")).unwrap_err();
    assert_eq!(err, RenderError::Unresolved("x".to_string()));
    assert_eq!(err.message(), "placeholder {{x}} is left after substitution");
    // resolve_str itself substitutes verbatim.
    assert_eq!(resolve_str("{{unit}}", &values("{{x}}")).unwrap(), "{{x}}");
}

#[test]
fn capability_resolve_reports_a_missing_value() {
    let cap = Capability::DeletePod { namespace: "{{ns}}".into(), pod: "web".into() };
    assert_eq!(
        cap.resolve(&values("x")).unwrap_err(),
        RenderError::MissingValue("ns".to_string())
    );
}

#[test]
fn resolve_str_errors_on_missing_value() {
    assert_eq!(
        resolve_str("{{nope}}", &values("x")).unwrap_err(),
        RenderError::MissingValue("nope".to_string())
    );
}

#[test]
fn resolve_str_tolerates_spaces_and_keeps_unclosed_braces() {
    assert_eq!(resolve_str("a {{ unit }} b", &values("x.service")).unwrap(), "a x.service b");
    assert_eq!(resolve_str("keep {{unit", &values("x")).unwrap(), "keep {{unit");
}

fn envelope(expires_at: i64) -> CommandEnvelope {
    CommandEnvelope {
        command_id: 11,
        agent_id: 12,
        template_id: "failed-unit-restart".into(),
        template_version: 3,
        risk_tier: RiskTier::Safe,
        preconditions: vec![],
        steps: vec![Capability::RestartUnit { unit: "nginx.service".into() }],
        verify: None,
        rollback: Rollback::NoAction,
        approval_ref: ApprovalRef::PolicyAuto,
        nonce: "nonce-1".into(),
        issued_at: NOW,
        expires_at,
        kid: None,
        sig: None,
    }
}

/// The canonical bytes these tests sign: the envelope's debug text without
/// its signature.
fn payload(env: &CommandEnvelope) -> Vec<u8> {
    let mut e = env.clone();
    e.sig = None;
    format!("{e:?}").into_bytes()
}

fn sign_envelope(key: &SecretKey, env: &mut CommandEnvelope) {
    stamp_key_id(key, env);
    let p = payload(env);
    attach_signature(key, env, &p);
}

#[test]
fn sign_then_verify_succeeds() {
    let key = generate_signing_key();
    let mut env = envelope(NOW + 5 * MINUTE);
    sign_envelope(&key, &mut env);
    assert!(env.sig.is_some());
    verify_envelope(&key.public_key(), &env, &payload(&env), NOW).unwrap();
}

#[test]
fn tampered_payload_fails_verification() {
    let key = generate_signing_key();
    let mut env = envelope(NOW + 5 * MINUTE);
    sign_envelope(&key, &mut env);
    // Mutate a signed field after signing.
    env.steps = vec![Capability::RestartUnit { unit: "evil.service".into() }];
    assert_eq!(
        verify_envelope(&key.public_key(), &env, &payload(&env), NOW).unwrap_err(),
        VerifyError::BadSignature
    );
}

#[test]
fn wrong_key_fails_verification() {
    let key = generate_signing_key();
    let other = generate_signing_key();
    let mut env = envelope(NOW + 5 * MINUTE);
    sign_envelope(&key, &mut env);
    assert_eq!(
        verify_envelope(&other.public_key(), &env, &payload(&env), NOW).unwrap_err(),
        VerifyError::BadSignature
    );
}

#[test]
fn missing_signature_is_rejected() {
    let key = generate_signing_key();
    let env = envelope(NOW + 5 * MINUTE);
    assert_eq!(
        verify_envelope(&key.public_key(), &env, &payload(&env), NOW).unwrap_err(),
        VerifyError::MissingSignature
    );
}

#[test]
fn malformed_signature_is_bad_encoding() {
    let key = generate_signing_key();
    let p = b"payload".to_vec();
    assert_eq!(
        verify_signature(&key.public_key(), &Some("not base64!".into()), &p).unwrap_err(),
        VerifyError::BadEncoding
    );
    // Valid base64 of the wrong length.
    assert_eq!(
        verify_signature(&key.public_key(), &Some("AAAA".into()), &p).unwrap_err(),
        VerifyError::BadEncoding
    );
}

#[test]
fn expired_envelope_is_rejected() {
    let key = generate_signing_key();
    let mut env = envelope(NOW - MINUTE);
    sign_envelope(&key, &mut env);
    assert_eq!(
        verify_envelope(&key.public_key(), &env, &payload(&env), NOW).unwrap_err(),
        VerifyError::Expired
    );
}

#[test]
fn public_key_b64_round_trips() {
    let key = generate_signing_key();
    let b64 = verifying_key_to_b64(&key.public_key());
    let back = verifying_key_from_b64(&b64).unwrap();
    assert_eq!(back, key.public_key());
    // Surrounding whitespace is ignored.
    let padded = format!("  {b64}\n");
    assert_eq!(verifying_key_from_b64(&padded).unwrap(), key.public_key());
}

#[test]
fn key_decoding_errors_are_distinguished() {
    assert_eq!(verifying_key_from_b64("%%%").unwrap_err(), KeyError::BadEncoding);
    assert_eq!(verifying_key_from_b64("AAAA").unwrap_err(), KeyError::BadLength);
    assert_eq!(signing_key_from_b64("AAAA").unwrap_err(), KeyError::BadLength);
}

#[test]
fn signing_key_b64_round_trips_and_signs_compatibly() {
    let key = generate_signing_key();
    let b64 = signing_key_to_b64(&key);
    let back = signing_key_from_b64(&b64).unwrap();
    let mut env = envelope(NOW + 5 * MINUTE);
    sign_envelope(&back, &mut env);
    verify_envelope(&key.public_key(), &env, &payload(&env), NOW).unwrap();
}

#[test]
fn signing_stamps_the_key_id() {
    let key = generate_signing_key();
    let mut env = envelope(NOW + 5 * MINUTE);
    sign_envelope(&key, &mut env);
    assert_eq!(env.kid.as_deref(), Some(key_id(&key.public_key()).as_str()));
}

#[test]
fn key_id_is_stable_and_distinct_per_key() {
    let a = generate_signing_key();
    let b = generate_signing_key();
    assert_eq!(key_id(&a.public_key()), key_id(&a.public_key()));
    assert_ne!(key_id(&a.public_key()), key_id(&b.public_key()));
    // The first sixteen characters of the key's base64 text.
    let id = key_id(&a.public_key());
    assert_eq!(id.len(), 16);
    assert!(verifying_key_to_b64(&a.public_key()).starts_with(&id));
}

#[test]
fn keyring_verifies_across_two_valid_keys_during_overlap() {
    let old = generate_signing_key();
    let new = generate_signing_key();
    let mut ring = Keyring::single(old.public_key());
    ring.insert(new.public_key());

    let mut env_old = envelope(NOW + 5 * MINUTE);
    sign_envelope(&old, &mut env_old);
    let mut env_new = envelope(NOW + 5 * MINUTE);
    sign_envelope(&new, &mut env_new);

    verify_envelope_with(&ring, &env_old, &payload(&env_old), NOW).unwrap();
    verify_envelope_with(&ring, &env_new, &payload(&env_new), NOW).unwrap();
}

#[test]
fn keyring_rejects_a_retired_key() {
    let old = generate_signing_key();
    let new = generate_signing_key();
    let mut env_old = envelope(NOW + 5 * MINUTE);
    sign_envelope(&old, &mut env_old);

    // Retired ring: only the new key remains.
    let ring = Keyring::single(new.public_key());
    assert_eq!(
        verify_envelope_with(&ring, &env_old, &payload(&env_old), NOW).unwrap_err(),
        VerifyError::UnknownKey
    );
}

#[test]
fn keyring_verifies_legacy_envelope_without_kid_via_default() {
    let key = generate_signing_key();
    let mut env = envelope(NOW + 5 * MINUTE);
    // Sign without stamping a key id.
    let p = payload(&env);
    env.sig = Some(sign_payload(&key, &p));
    assert!(env.kid.is_none());

    let ring = Keyring::single(key.public_key());
    verify_envelope_with(&ring, &env, &payload(&env), NOW).unwrap();
}

#[test]
fn keyring_rejects_forged_kid_pointing_at_trusted_key() {
    // Envelope signed by an attacker key, but its `kid` claims a trusted one.
    let trusted = generate_signing_key();
    let attacker = generate_signing_key();
    let ring = Keyring::single(trusted.public_key());

    let mut env = envelope(NOW + 5 * MINUTE);
    sign_envelope(&attacker, &mut env);
    env.kid = Some(key_id(&trusted.public_key())); // lie about the key id
    assert_eq!(
        verify_envelope_with(&ring, &env, &payload(&env), NOW).unwrap_err(),
        VerifyError::BadSignature
    );
}

#[test]
fn empty_keyring_fails_closed() {
    let key = generate_signing_key();
    let mut env = envelope(NOW + 5 * MINUTE);
    sign_envelope(&key, &mut env);
    let ring = Keyring::new();
    assert!(ring.is_empty());
    assert_eq!(
        verify_envelope_with(&ring, &env, &payload(&env), NOW).unwrap_err(),
        VerifyError::UnknownKey
    );
}

#[test]
fn keyring_json_round_trips() {
    let old = generate_signing_key();
    let new = generate_signing_key();
    let mut ring = Keyring::single(old.public_key());
    let new_kid = ring.insert(new.public_key());
    // Advertise the new key as active (the rotation step).
    assert!(ring.set_default(&new_kid));

    // The published document: the active id and each (id, base64 key) pair.
    let entries: Vec<(String, String)> = ring
        .kids()
        .into_iter()
        .map(|kid| {
            let b64 = verifying_key_to_b64(ring.get(&kid).unwrap());
            (kid, b64)
        })
        .collect();
    let active = ring.default_kid().map(|s| s.to_string());
    let back = Keyring::from_entries(active, entries).unwrap();
    assert_eq!(back.len(), 2);
    assert_eq!(back.default_kid(), Some(new_kid.as_str()));
    assert_eq!(back.get(&new_kid), Some(&new.public_key()));
    assert_eq!(back.get(&key_id(&old.public_key())), Some(&old.public_key()));
}

#[test]
fn keyring_json_rejects_active_kid_not_in_keys() {
    assert_eq!(
        Keyring::from_entries(Some("deadbeef".into()), vec![]).unwrap_err(),
        KeyError::BadKey
    );
}

#[test]
fn keyring_document_with_a_bad_key_fails_closed() {
    let key = generate_signing_key();
    let good = verifying_key_to_b64(&key.public_key());
    let entries = vec![("a".to_string(), good), ("b".to_string(), "AAAA".to_string())];
    assert_eq!(Keyring::from_entries(None, entries).unwrap_err(), KeyError::BadLength);
}

#[test]
fn keyring_expired_envelope_is_rejected() {
    let key = generate_signing_key();
    let mut env = envelope(NOW - MINUTE);
    sign_envelope(&key, &mut env);
    let ring = Keyring::single(key.public_key());
    assert_eq!(
        verify_envelope_with(&ring, &env, &payload(&env), NOW).unwrap_err(),
        VerifyError::Expired
    );
}
