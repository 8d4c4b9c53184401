use ravn::pipeline::{next_retry_ms, WS_FIRST_RETRY_MS};
use ravn::agent::{
    clamp_poll_secs, decide_command, dispatch_report, pull_step, CommandDecision, Ledger,
    PollState, PullStep, CIRCUIT_OPEN_SECS, CIRCUIT_OPEN_THRESHOLD, MAX_BACKOFF_SECS, MIN_POLL_SECS,
};
use ravn::command::{ActionResult, ActionStatus, ApprovalRef, CommandEnvelope};
use ravn::config::{config_path_from_args, AgentEnv, Config, FileConfig, Identity};
use ravn::crypto::{attach_signature, generate_signing_key, stamp_key_id, SecretKey};
use ravn::remediation::{Capability, RiskTier, Rollback};

const NOW: i64 = 1_700_000_000_000_000;

fn payload(env: &CommandEnvelope) -> Vec<u8> {
    let mut e = env.clone();
    e.sig = None;
    format!("{e:?}").into_bytes()
}

fn signed(key: &SecretKey, command_id: u128) -> CommandEnvelope {
    let mut env = CommandEnvelope {
        command_id,
        agent_id: 1,
        template_id: "failed-unit-restart".into(),
        template_version: 3,
        risk_tier: RiskTier::Safe,
        preconditions: vec![],
        steps: vec![Capability::RestartUnit { unit: "nginx.service".into() }],
        verify: None,
        rollback: Rollback::NoAction,
        approval_ref: ApprovalRef::PolicyAuto,
        nonce: "n".into(),
        issued_at: NOW,
        expires_at: NOW + 300_000_000,
        kid: None,
        sig: None,
    };
    stamp_key_id(key, &mut env);
    let p = payload(&env);
    attach_signature(key, &mut env, &p);
    env
}

fn ok_result(env: &CommandEnvelope) -> ActionResult {
    ActionResult {
        command_id: env.command_id,
        status: ActionStatus::Succeeded,
        detail: Some("ok".into()),
        observed_state: None,
        finished_at: NOW,
    }
}

/// What the agent does with one pulled command: decide, record before
/// dispatch, relay. `send` stands for the actuator round trip.
fn process(
    env: &CommandEnvelope,
    key: &SecretKey,
    ledger: &mut Ledger,
    send: &mut dyn FnMut(&CommandEnvelope) -> Result<ActionResult, String>,
) -> Option<ActionResult> {
    match pull_step(env, &key.public_key(), &payload(env), ledger, NOW) {
        PullStep::Skip => None,
        PullStep::Report(r) => Some(r),
        PullStep::Relay(_) => Some(dispatch_report(env, send(env), NOW)),
    }
}

#[test]
fn pull_step_records_before_relay_and_skips_afterwards() {
    let key = generate_signing_key();
    let env = signed(&key, 42);
    let mut ledger = Ledger::new();
    match pull_step(&env, &key.public_key(), &payload(&env), &mut ledger, NOW) {
        PullStep::Relay(Some(line)) => assert_eq!(line, "00000000-0000-0000-0000-00000000002a"),
        other => panic!("expected a relay with a ledger line, got {other:?}"),
    }
    assert!(ledger.contains(42));
    assert_eq!(pull_step(&env, &key.public_key(), &payload(&env), &mut ledger, NOW), PullStep::Skip);
    let mut tampered = signed(&key, 43);
    tampered.nonce = "other".into();
    match pull_step(&tampered, &key.public_key(), &payload(&tampered), &mut ledger, NOW) {
        PullStep::Report(r) => assert_eq!(r.status, ActionStatus::Rejected),
        other => panic!("expected a rejection, got {other:?}"),
    }
    assert!(!ledger.contains(43));
}

#[test]
fn min_poll_interval_is_enforced() {
    assert!(MIN_POLL_SECS >= 5, "minimum must be at least 5 s");
    assert_eq!(clamp_poll_secs(1), 5);
    assert_eq!(clamp_poll_secs(30), 30);
}

#[test]
fn poll_state_starts_at_base_interval() {
    let s = PollState::new(10);
    assert_eq!(s.backoff_secs, 10);
    assert_eq!(s.consecutive_errors, 0);
}

#[test]
fn backoff_increases_on_consecutive_errors() {
    let mut s = PollState::new(10);
    let mut delays = vec![];
    for _ in 0..6 {
        let (d, _) = s.record_error();
        delays.push(d);
    }
    assert!(s.consecutive_errors == 6, "error counter must increment each call");
    assert!(delays.iter().all(|&d| d <= MAX_BACKOFF_SECS));
}

#[test]
fn backoff_resets_on_success() {
    let mut s = PollState::new(10);
    for _ in 0..4 {
        s.record_error();
    }
    assert!(s.consecutive_errors > 0);
    s.record_success();
    assert_eq!(s.consecutive_errors, 0);
    assert_eq!(s.backoff_secs, s.base_poll_secs);
}

#[test]
fn circuit_opens_after_threshold_errors() {
    let mut s = PollState::new(10);
    let mut opened_at = None;
    for i in 0..CIRCUIT_OPEN_THRESHOLD + 2 {
        let (_, opened) = s.record_error();
        if opened {
            opened_at = Some(i);
        }
    }
    assert_eq!(opened_at, Some(CIRCUIT_OPEN_THRESHOLD - 1), "circuit must open exactly at the threshold");
    assert!(s.circuit_is_open());
    assert_eq!(s.next_sleep_secs(), CIRCUIT_OPEN_SECS);
}

#[test]
fn circuit_closes_after_success() {
    let mut s = PollState::new(10);
    for _ in 0..CIRCUIT_OPEN_THRESHOLD + 1 {
        s.record_error();
    }
    assert!(s.circuit_is_open());
    s.record_success();
    assert!(!s.circuit_is_open(), "circuit must close on success");
}

#[test]
fn backoff_delay_never_exceeds_cap() {
    let mut s = PollState::new(MIN_POLL_SECS);
    for _ in 0..30 {
        let (d, _) = s.record_error();
        assert!(d <= MAX_BACKOFF_SECS, "delay {d} must not exceed {MAX_BACKOFF_SECS}");
        assert!(d >= 1);
    }
}

#[test]
fn jitter_produces_different_delays_across_runs() {
    let mut seen = std::collections::HashSet::new();
    for _ in 0..50 {
        let mut s = PollState::new(MIN_POLL_SECS);
        for _ in 0..3 {
            let (d, _) = s.record_error();
            seen.insert(d);
        }
    }
    assert!(seen.len() > 1, "jitter must produce varied delays; got only {seen:?}");
}

#[test]
fn recovery_within_one_base_interval_after_success() {
    let mut s = PollState::new(10);
    for _ in 0..CIRCUIT_OPEN_THRESHOLD + 3 {
        s.record_error();
    }
    assert!(s.circuit_is_open());
    s.record_success();
    assert_eq!(s.backoff_secs, s.base_poll_secs);
    assert!(!s.circuit_is_open());
    assert_eq!(s.next_sleep_secs(), 10);
}

#[test]
fn jittered_delay_stays_under_the_exponential_ceiling() {
    let mut s = PollState::new(10);
    s.record_error_with_jitter(0);
    assert_eq!(s.backoff_secs, 1, "a zero draw still sleeps one second");
    assert_eq!(s.ceiling(), 10);
    s.record_error_with_jitter(20);
    assert_eq!(s.ceiling(), 20);
    s.record_error_with_jitter(40);
    assert_eq!(s.ceiling(), 40);
    for _ in 0..10 {
        s.record_error_with_jitter(1);
    }
    assert_eq!(s.ceiling(), MAX_BACKOFF_SECS);
}

#[test]
fn ledger_persists_and_reloads() {
    let id = 0x018f_0000_0000_7000_8000_0000_0000_0042u128;
    let mut ledger = Ledger::new();
    assert!(!ledger.contains(id));
    let line = ledger.record(id).expect("a new id yields a line to append");
    assert_eq!(line, "018f0000-0000-7000-8000-000000000042");
    assert!(ledger.contains(id));
    assert!(ledger.record(id).is_none(), "recording twice appends nothing");
    let reloaded = Ledger::from_lines(&vec!["garbage".to_string(), format!(" {line} ")]);
    assert!(reloaded.contains(id));
    assert!(!reloaded.contains(id + 1));
}

#[test]
fn valid_command_executes_once_then_is_skipped() {
    let key = generate_signing_key();
    let env = signed(&key, 11);
    let mut ledger = Ledger::new();
    let mut calls = 0;
    let r = process(&env, &key, &mut ledger, &mut |e| {
        calls += 1;
        Ok(ok_result(e))
    });
    assert_eq!(r.unwrap().status, ActionStatus::Succeeded);
    let r2 = process(&env, &key, &mut ledger, &mut |e| {
        calls += 1;
        Ok(ok_result(e))
    });
    assert!(r2.is_none());
    assert_eq!(calls, 1, "send must not run again");
}

#[test]
fn forged_command_is_rejected_and_not_executed() {
    let key = generate_signing_key();
    let attacker = generate_signing_key();
    let env = signed(&attacker, 12);
    let mut ledger = Ledger::new();
    let mut ran = false;
    let decision = decide_command(&env, &key.public_key(), &payload(&env), &ledger, NOW);
    let r = match decision {
        CommandDecision::Reject(r) => Some(r),
        CommandDecision::Dispatch => {
            ran = true;
            None
        }
        CommandDecision::AlreadyHandled => None,
    };
    let r = r.unwrap();
    assert_eq!(r.status, ActionStatus::Rejected);
    assert_eq!(r.detail.as_deref(), Some("command signature does not verify"));
    assert!(!ran, "a forged command must never reach the actuator");
    assert!(!ledger.contains(env.command_id), "rejected commands are not recorded as executed");
    let _ = process(&env, &key, &mut ledger, &mut |e| Ok(ok_result(e)));
    assert!(!ledger.contains(env.command_id));
}

#[test]
fn actuator_dispatch_error_reports_failed() {
    let key = generate_signing_key();
    let env = signed(&key, 13);
    let mut ledger = Ledger::new();
    let r = process(&env, &key, &mut ledger, &mut |_| Err("connection refused".to_string()));
    let r = r.unwrap();
    assert_eq!(r.status, ActionStatus::Failed);
    assert_eq!(r.detail.as_deref(), Some("actuator dispatch failed: connection refused"));
    assert!(ledger.contains(env.command_id));
}

#[test]
fn parses_config_flag_spaced() {
    let args: Vec<String> = ["ravnd", "--config", "/etc/ravn.toml"].map(String::from).to_vec();
    assert_eq!(config_path_from_args(&args).as_deref(), Some("/etc/ravn.toml"));
}

#[test]
fn parses_config_flag_equals() {
    let args: Vec<String> = ["ravnd", "--config=/etc/ravn.toml"].map(String::from).to_vec();
    assert_eq!(config_path_from_args(&args).as_deref(), Some("/etc/ravn.toml"));
}

#[test]
fn no_config_flag_is_none() {
    let args: Vec<String> = ["ravnd"].map(String::from).to_vec();
    assert_eq!(config_path_from_args(&args), None);
}

#[test]
fn trailing_config_flag_names_nothing() {
    let args: Vec<String> = ["ravnd", "--config"].map(String::from).to_vec();
    assert_eq!(config_path_from_args(&args), None);
}

fn no_env() -> AgentEnv {
    AgentEnv { server_url: None, agent_id: None, host: None, hostname: None, log: None }
}

#[test]
fn environment_beats_file_and_defaults_fill_in() {
    let file = FileConfig { server_url: Some("nats://example:4222".into()), log_level: Some("debug".into()) };
    let cfg = Config::resolve(&no_env(), &file, 5).unwrap();
    assert_eq!(cfg.server_url, "nats://example:4222");
    assert_eq!(cfg.log, "debug");
    assert_eq!(cfg.host, "unknown");
    assert_eq!(cfg.agent_id, 5);

    let mut env = no_env();
    env.server_url = Some("ws://override".into());
    env.host = Some(String::new());
    env.hostname = Some("box".into());
    env.agent_id = Some("018f0000-0000-7000-8000-000000000042".into());
    let cfg = Config::resolve(&env, &file, 5).unwrap();
    assert_eq!(cfg.server_url, "ws://override");
    assert_eq!(cfg.host, "box");
    assert_eq!(cfg.agent_id, 0x018f_0000_0000_7000_8000_0000_0000_0042);

    let empty = FileConfig { server_url: None, log_level: None };
    let cfg = Config::resolve(&no_env(), &empty, 5).unwrap();
    assert_eq!(cfg.server_url, "nats://127.0.0.1:14222");
    assert_eq!(cfg.log, "info");
}

#[test]
fn bad_agent_id_is_an_error() {
    let mut env = no_env();
    env.agent_id = Some("not-a-uuid".into());
    let file = FileConfig { server_url: None, log_level: None };
    assert_eq!(Config::resolve(&env, &file, 5).err().as_deref(), Some("RAVN_AGENT_ID is not a valid UUID"));
}

#[test]
fn identity_files_live_in_the_credential_dir() {
    let id = Identity::in_dir("/var/lib/ravn");
    assert_eq!(id.key_path, "/var/lib/ravn/agent.key");
    assert_eq!(id.cert_path, "/var/lib/ravn/agent.crt");
    assert_eq!(id.ca_path, "/var/lib/ravn/ca.crt");
    assert_eq!(Identity::in_dir("/creds/").ca_path, "/creds/ca.crt");
}

#[test]
fn websocket_retry_delay_doubles_up_to_the_cap() {
    assert_eq!(next_retry_ms(WS_FIRST_RETRY_MS), 400);
    assert_eq!(next_retry_ms(1600), 3200);
    assert_eq!(next_retry_ms(3200), 5000);
    assert_eq!(next_retry_ms(5000), 5000);
}

#[test]
fn poll_sleep_tracks_the_failures_since_the_last_success() {
    let base = clamp_poll_secs(10);
    let mut s = PollState::new(base);
    assert_eq!(s.next_sleep_secs(), base);
    for k in 1..CIRCUIT_OPEN_THRESHOLD {
        s.record_error();
        let ceiling = (base * 2u64.pow(k - 1)).min(MAX_BACKOFF_SECS);
        let sleep = s.next_sleep_secs();
        assert!((1..=ceiling).contains(&sleep), "k={k} sleep={sleep}");
    }
    s.record_error();
    assert_eq!(s.next_sleep_secs(), CIRCUIT_OPEN_SECS);
    s.record_success();
    assert_eq!(s.next_sleep_secs(), base);
}
