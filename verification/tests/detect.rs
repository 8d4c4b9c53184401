use ravn::auth::{classify_audit, classify_ssh, classify_sudo, sudo_user, word_after};
use ravn::config_drift::{
    drift_event, evaluate, evaluate_checked, removal_payload, unified_diff, FileState,
};
use ravn::event::{
    AuthPayload, Event, Explanation, FailedUnitPayload, JournaldPayload, Payload, Severity, Source,
    UpdatePayload,
};
use ravn::failed_unit::{failed_unit_names, FailedUnitTap, GraceTracker, UnitStatus};
use ravn::inference::{build_user_prompt, explanation_from_reply, extract_fields, parse_explanation};
use ravn::journal::{classify_auth, parse_i64, severity_from_priority, truncate, JournalRecord, JournaldTap};
use ravn::pipeline::{build_digest_message, route_message, startup_message, transport_kind, MessageRoute, TransportKind};
use ravn::update::{closure_changes, parse_generation, UpdateTap};

const NOW: i64 = 1_700_000_000_000_000;

fn set(names: &[&str]) -> Vec<String> {
    names.iter().map(|s| s.to_string()).collect()
}

#[test]
fn grace_zero_emits_on_first_observation() {
    let mut t = GraceTracker::new();
    assert_eq!(t.observe(&set(&["nginx.service"]), 0, 0), vec!["nginx.service".to_string()]);
}

#[test]
fn still_failed_unit_is_not_re_emitted() {
    let mut t = GraceTracker::new();
    assert_eq!(t.observe(&set(&["a.service"]), 0, 0).len(), 1);
    assert!(t.observe(&set(&["a.service"]), 5_000, 0).is_empty());
}

#[test]
fn brief_failure_then_recovery_is_suppressed() {
    let mut t = GraceTracker::new();
    let grace = 15_000;
    assert!(t.observe(&set(&["flap.service"]), 0, grace).is_empty());
    assert!(t.observe(&set(&[]), 5_000, grace).is_empty());
    assert!(t.observe(&set(&[]), 30_000, grace).is_empty());
}

#[test]
fn persistent_failure_emits_once_after_grace() {
    let mut t = GraceTracker::new();
    let grace = 15_000;
    assert!(t.observe(&set(&["down.service"]), 0, grace).is_empty());
    assert!(t.observe(&set(&["down.service"]), 10_000, grace).is_empty());
    assert_eq!(t.observe(&set(&["down.service"]), 15_000, grace), vec!["down.service".to_string()]);
    assert!(t.observe(&set(&["down.service"]), 20_000, grace).is_empty());
}

#[test]
fn recovery_then_refailure_re_arms_and_emits_again() {
    let mut t = GraceTracker::new();
    let grace = 10_000;
    assert!(t.observe(&set(&["svc.service"]), 0, grace).is_empty());
    assert_eq!(t.observe(&set(&["svc.service"]), 10_000, grace).len(), 1);
    assert!(t.observe(&set(&[]), 15_000, grace).is_empty());
    assert!(t.observe(&set(&["svc.service"]), 20_000, grace).is_empty());
    assert_eq!(t.observe(&set(&["svc.service"]), 30_000, grace).len(), 1);
}

#[test]
fn repeated_names_in_one_listing_report_once() {
    let mut t = GraceTracker::new();
    assert_eq!(t.observe(&set(&["x.service", "x.service"]), 0, 0), vec!["x.service".to_string()]);
}

#[test]
fn failed_units_are_picked_from_the_listing() {
    let units = vec![
        UnitStatus { name: "a.service".into(), active_state: "active".into(), sub_state: "running".into() },
        UnitStatus { name: "b.service".into(), active_state: "failed".into(), sub_state: "failed".into() },
    ];
    assert_eq!(failed_unit_names(&units), vec!["b.service".to_string()]);
}

#[test]
fn failed_unit_event_names_the_unit() {
    let tap = FailedUnitTap { agent_id: 3, host: "web-01".into(), user_bus: false, poll_interval_ms: 5000, grace_ms: 0 };
    let e = tap.build_event("nginx.service", "exit-code".into(), vec!["boom".into()], "failed", 99, NOW);
    assert_eq!(e.title, "unit failed: nginx.service");
    assert_eq!(e.severity, Severity::Error);
    assert_eq!(e.source(), Source::FailedUnit);
    match e.payload {
        Payload::FailedUnit(p) => {
            assert_eq!(p.result, "exit-code");
            assert_eq!(p.extra, vec![("active_state".to_string(), "failed".to_string())]);
        }
        other => panic!("expected failed_unit, got {other:?}"),
    }
}

fn tap() -> JournaldTap {
    JournaldTap { agent_id: 1, host: "test".into(), min_priority: 4, auth_enable: false }
}

fn record(pairs: &[(&str, &str)]) -> JournalRecord {
    JournalRecord { fields: pairs.iter().map(|(k, v)| (k.to_string(), v.to_string())).collect() }
}

#[test]
fn severity_ramps_with_priority() {
    assert_eq!(severity_from_priority(0), Severity::Critical);
    assert_eq!(severity_from_priority(2), Severity::Critical);
    assert_eq!(severity_from_priority(3), Severity::Error);
    assert_eq!(severity_from_priority(4), Severity::Warning);
    assert_eq!(severity_from_priority(5), Severity::Notice);
    assert_eq!(severity_from_priority(6), Severity::Info);
}

#[test]
fn maps_a_unit_error_entry() {
    let rec = record(&[
        ("PRIORITY", "3"),
        ("MESSAGE", "connection refused"),
        ("_SYSTEMD_UNIT", "nginx.service"),
        ("SYSLOG_IDENTIFIER", "nginx"),
        ("_PID", "4242"),
        ("__REALTIME_TIMESTAMP", "1717405200000000"),
    ]);
    let ev = tap().record_to_event(&rec, 5, NOW).expect("should map");
    assert_eq!(ev.severity, Severity::Error);
    assert_eq!(ev.source(), Source::Journald);
    assert!(ev.title.contains("nginx.service"));
    assert_eq!(ev.title, "nginx.service: connection refused");
    assert_eq!(ev.occurred_at, 1717405200000000);
    match ev.payload {
        Payload::Journald(p) => {
            assert_eq!(p.unit.as_deref(), Some("nginx.service"));
            assert_eq!(p.priority, Some(3));
            assert_eq!(p.message, "connection refused");
            assert!(p.extra.contains(&("pid".to_string(), "4242".to_string())));
            assert!(p.extra.contains(&("syslog_identifier".to_string(), "nginx".to_string())));
        }
        other => panic!("expected journald payload, got {other:?}"),
    }
}

#[test]
fn drops_entries_below_threshold() {
    let rec = record(&[("PRIORITY", "6"), ("MESSAGE", "just chatter")]);
    assert!(tap().record_to_event(&rec, 5, NOW).is_none());
}

#[test]
fn requires_a_message() {
    let rec = record(&[("PRIORITY", "3")]);
    assert!(tap().record_to_event(&rec, 5, NOW).is_none());
}

#[test]
fn unparseable_priority_counts_as_info_and_bad_time_as_now() {
    let t = JournaldTap { agent_id: 1, host: "h".into(), min_priority: 7, auth_enable: false };
    let rec = record(&[("PRIORITY", "x"), ("MESSAGE", "m"), ("__REALTIME_TIMESTAMP", "soon")]);
    let ev = t.record_to_event(&rec, 5, NOW).unwrap();
    assert_eq!(ev.severity, Severity::Info);
    assert_eq!(ev.occurred_at, NOW);
}

#[test]
fn long_messages_are_cut_in_titles() {
    let msg = "x".repeat(120);
    let rec = record(&[("PRIORITY", "3"), ("MESSAGE", msg.as_str())]);
    let ev = tap().record_to_event(&rec, 5, NOW).unwrap();
    assert_eq!(ev.title, format!("{}\u{2026}", "x".repeat(100)));
    assert_eq!(truncate("abc", 3), "abc");
    assert_eq!(truncate("h\u{e9}llo", 2), "h\u{e9}\u{2026}");
}

#[test]
fn parses_signed_integers_like_std() {
    assert_eq!(parse_i64("42"), Some(42));
    assert_eq!(parse_i64("+42"), Some(42));
    assert_eq!(parse_i64("-42"), Some(-42));
    assert_eq!(parse_i64("-9223372036854775808"), Some(i64::MIN));
    assert_eq!(parse_i64("9223372036854775808"), None);
    assert_eq!(parse_i64("-"), None);
    assert_eq!(parse_i64("-+1"), None);
    assert_eq!(parse_i64(""), None);
}

fn auth(ident: &str, msg: &str) -> Event {
    classify_auth(&record(&[("SYSLOG_IDENTIFIER", ident), ("MESSAGE", msg)]), 1, "h", 2, NOW)
        .expect("should classify")
}

fn payload(e: &Event) -> &AuthPayload {
    match &e.payload {
        Payload::Auth(p) => p,
        other => panic!("expected auth payload, got {other:?}"),
    }
}

#[test]
fn ssh_accepted_login() {
    let e = auth("sshd", "Accepted publickey for alice from 10.0.0.5 port 53122 ssh2");
    assert_eq!(e.source(), Source::Auth);
    assert_eq!(e.severity, Severity::Notice);
    assert_eq!(e.title, "ssh_login: alice from 10.0.0.5");
    let p = payload(&e);
    assert_eq!(p.action, "ssh_login");
    assert_eq!(p.user.as_deref(), Some("alice"));
    assert_eq!(p.remote_addr.as_deref(), Some("10.0.0.5"));
    assert!(p.succeeded);
}

#[test]
fn ssh_failed_password() {
    let e = auth("sshd", "Failed password for bob from 203.0.113.9 port 40000 ssh2");
    let p = payload(&e);
    assert_eq!(p.action, "ssh_failed");
    assert_eq!(p.user.as_deref(), Some("bob"));
    assert_eq!(p.remote_addr.as_deref(), Some("203.0.113.9"));
    assert!(!p.succeeded);
}

#[test]
fn ssh_failed_invalid_user() {
    let e = auth("sshd", "Failed password for invalid user root from 1.2.3.4 port 22 ssh2");
    let p = payload(&e);
    assert_eq!(p.user.as_deref(), Some("root"));
    assert_eq!(p.remote_addr.as_deref(), Some("1.2.3.4"));
}

#[test]
fn sudo_command() {
    let e = auth("sudo", "olaf : TTY=pts/0 ; PWD=/home ; USER=root ; COMMAND=/bin/systemctl restart nginx");
    let p = payload(&e);
    assert_eq!(p.action, "sudo");
    assert_eq!(p.user.as_deref(), Some("olaf"));
    assert!(p.succeeded);
}

#[test]
fn sudo_failure() {
    let e = auth(
        "sudo",
        "pam_unix(sudo:auth): authentication failure; logname=olaf uid=1000 ruser=olaf rhost= user=root",
    );
    assert_eq!(e.severity, Severity::Warning);
    let p = payload(&e);
    assert_eq!(p.action, "sudo_failed");
    assert_eq!(p.user.as_deref(), Some("olaf"));
    assert!(!p.succeeded);
}

#[test]
fn non_auth_returns_none() {
    let rec = record(&[("SYSLOG_IDENTIFIER", "kernel"), ("MESSAGE", "usb 1-1: new high-speed USB device")]);
    assert!(classify_auth(&rec, 1, "h", 2, NOW).is_none());
}

#[test]
fn word_after_trims_trailing_punctuation() {
    assert_eq!(word_after("user alice; done", "user ").as_deref(), Some("alice"));
    assert_eq!(word_after("acct=\"bob\":,", "acct=").as_deref(), Some("\"bob\""));
    assert_eq!(word_after("nothing here", "user "), None);
    assert_eq!(word_after("user ...", "user "), None);
}

#[test]
fn sudo_user_prefers_ruser_then_head_then_logname() {
    assert_eq!(sudo_user("x ruser=amy y").as_deref(), Some("amy"));
    assert_eq!(sudo_user("olaf : TTY=pts/0").as_deref(), Some("olaf"));
    assert_eq!(sudo_user("two words : logname=zed").as_deref(), Some("zed"));
}

#[test]
fn audit_records_report_success_and_address() {
    let d = classify_audit("type=USER_AUTH acct=carol addr=10.1.1.1 res=success").unwrap();
    assert_eq!(d.action, "audit_user_auth");
    assert_eq!(d.user.as_deref(), Some("carol"));
    assert_eq!(d.remote.as_deref(), Some("10.1.1.1"));
    assert!(d.succeeded);
    assert_eq!(d.severity, Severity::Info);
    let d = classify_audit("type=USER_LOGIN acct=dan addr=? res=failed").unwrap();
    assert_eq!(d.remote, None);
    assert_eq!(d.severity, Severity::Warning);
    assert!(classify_audit("type=SYSCALL").is_none());
    assert!(classify_ssh("Connection closed").is_none());
    assert!(classify_sudo("just text").is_none());
}

#[test]
fn session_open_from_any_identifier() {
    let e = auth("systemd-logind", "New session 4 of user erin.");
    let p = payload(&e);
    assert_eq!(p.action, "session_open");
    assert_eq!(p.user.as_deref(), Some("erin"));
    assert_eq!(e.title, "session_open: erin");
}

#[test]
fn auth_classification_runs_first_when_enabled() {
    let t = JournaldTap { agent_id: 1, host: "h".into(), min_priority: 3, auth_enable: true };
    let rec = record(&[("SYSLOG_IDENTIFIER", "sshd"), ("PRIORITY", "6"), ("MESSAGE", "Invalid user x from 9.9.9.9")]);
    let e = t.classify(&rec, 2, NOW).unwrap();
    assert_eq!(e.source(), Source::Auth);
    assert_eq!(t.stream_priority(), 6);
}

#[test]
fn parses_system_generation() {
    assert_eq!(parse_generation("system-142-link"), Some(142));
    assert_eq!(parse_generation("system-1-link"), Some(1));
}

#[test]
fn parses_arbitrary_profile_name() {
    assert_eq!(parse_generation("nixos-system-host-3-link"), Some(3));
}

#[test]
fn rejects_non_generation_targets() {
    assert_eq!(parse_generation("not-a-generation"), None);
    assert_eq!(parse_generation("system-x-link"), None);
    assert_eq!(parse_generation("garbage"), None);
}

#[test]
fn update_event_reports_both_generations() {
    let tap = UpdateTap { agent_id: 1, host: "h".into(), profile: "/nix/var/nix/profiles/system".into(), poll_interval_ms: 1000 };
    let e = tap.build_event(141, 142, vec!["a".into()], 9, NOW);
    assert_eq!(e.title, "system updated: generation 141 \u{2192} 142");
    assert_eq!(e.severity, Severity::Notice);
    match e.payload {
        Payload::Update(p) => {
            assert_eq!(p.mechanism, "nixos");
            assert_eq!(p.from.as_deref(), Some("141"));
            assert_eq!(p.to.as_deref(), Some("142"));
        }
        other => panic!("expected update payload, got {other:?}"),
    }
    let lines: Vec<String> = (0..60).map(|i| if i % 2 == 0 { format!("l{i}") } else { "  ".into() }).collect();
    let kept = closure_changes(&lines);
    assert_eq!(kept.len(), 30);
    let many: Vec<String> = (0..60).map(|i| format!("l{i}")).collect();
    assert_eq!(closure_changes(&many).len(), 50);
}

fn failed_unit_event() -> Event {
    Event {
        id: 1,
        occurred_at: NOW,
        observed_at: NOW,
        agent_id: 2,
        host: "web-01".into(),
        severity: Severity::Error,
        title: "unit failed: nginx.service".into(),
        category_hints: vec![],
        payload: Payload::FailedUnit(FailedUnitPayload {
            unit: "nginx.service".into(),
            result: "exit-code".into(),
            recent_log: vec!["bind() to 0.0.0.0:80 failed".into()],
            extra: vec![],
        }),
    }
}

#[test]
fn prompt_includes_event_context() {
    let p = build_user_prompt(&failed_unit_event());
    assert!(p.contains("web-01"));
    assert!(p.contains("nginx.service"));
    assert!(p.contains("exit-code"));
    assert!(p.contains("bind() to 0.0.0.0:80 failed"));
    assert!(p.starts_with("Severity: Error\nSource: FailedUnit\nHost: web-01\n"));
}

#[test]
fn update_prompt_shows_generations_debug_style() {
    let mut e = failed_unit_event();
    e.payload = Payload::Update(UpdatePayload {
        mechanism: "nixos".into(),
        from: Some("1".into()),
        to: None,
        changes: vec![],
        extra: vec![],
    });
    let p = build_user_prompt(&e);
    assert!(p.ends_with("Update via nixos: Some(\"1\") -> None\n"));
}

#[test]
fn parses_clean_json() {
    let (text, check) =
        parse_explanation(r#"{"explanation":"nginx died","suggested_check":"systemctl status nginx"}"#);
    assert_eq!(text, "nginx died");
    assert_eq!(check.as_deref(), Some("systemctl status nginx"));
}

#[test]
fn parses_json_wrapped_in_prose() {
    let (text, check) = parse_explanation(
        "Sure!\n{\"explanation\": \"port in use\", \"suggested_check\": \"ss -ltnp\"}\nHope that helps.",
    );
    assert_eq!(text, "port in use");
    assert_eq!(check.as_deref(), Some("ss -ltnp"));
}

#[test]
fn falls_back_to_plain_text() {
    let (text, check) = parse_explanation("just a sentence, no json");
    assert_eq!(text, "just a sentence, no json");
    assert!(check.is_none());
}

#[test]
fn blank_replies_give_no_explanation() {
    assert!(explanation_from_reply("   ", "m", NOW).is_none());
    let x = explanation_from_reply("{\"explanation\":\" ok \",\"suggested_check\":\"  \"}", "m", NOW).unwrap();
    assert_eq!(x.text, "ok");
    assert_eq!(x.suggested_check, None);
    assert_eq!(x.model, "m");
}

fn ev(severity: Severity, payload: Payload) -> Event {
    Event {
        id: 1,
        occurred_at: NOW,
        observed_at: NOW,
        agent_id: 2,
        host: "host-9".into(),
        severity,
        title: "t".into(),
        category_hints: vec![],
        payload,
    }
}

#[test]
fn digest_message_summarizes_window() {
    let events = vec![
        ev(Severity::Warning, Payload::Journald(JournaldPayload { unit: None, priority: None, message: "a".into(), extra: vec![] })),
        ev(
            Severity::Error,
            Payload::FailedUnit(FailedUnitPayload { unit: "x".into(), result: "y".into(), recent_log: vec![], extra: vec![] }),
        ),
    ];
    let expl = Some(Explanation {
        text: "two issues; the failed unit matters most".into(),
        suggested_check: Some("systemctl --failed".into()),
        model: "m".into(),
        generated_at: NOW,
    });
    let msg = build_digest_message(2, "host-9", &events, expl, 3, NOW);
    assert_eq!(msg.event.severity, Severity::Error, "digest takes the window's max severity");
    assert!(msg.event.title.contains("2 events"));
    assert_eq!(msg.event.title, "Digest: 2 events (FailedUnit=1, Journald=1)");
    assert!(msg.event.category_hints.contains(&"digest".to_string()));
    assert_eq!(msg.event.source(), Source::Journald);
    assert_eq!(msg.explanation.as_ref().unwrap().text, "two issues; the failed unit matters most");
}

#[test]
fn empty_window_defaults_to_notice() {
    let msg = build_digest_message(2, "h", &vec![], None, 3, NOW);
    assert_eq!(msg.event.severity, Severity::Notice);
    assert!(msg.explanation.is_none());
    assert_eq!(msg.event.title, "Digest: 0 events ()");
}

#[test]
fn startup_message_names_the_version() {
    let m = startup_message(2, "box", "0.1.0", 3, NOW);
    assert_eq!(m.event.title, "ravnd 0.1.0 started");
    match m.event.payload {
        Payload::Journald(p) => {
            assert_eq!(p.message, "ravnd 0.1.0 started on box");
            assert_eq!(p.priority, Some(6));
        }
        other => panic!("expected journald payload, got {other:?}"),
    }
}

#[test]
fn unknown_scheme_is_rejected() {
    assert!(matches!(transport_kind("nats://x:4222"), Ok(TransportKind::Nats)));
    assert!(matches!(transport_kind("wss://x"), Ok(TransportKind::WebSocket)));
    assert_eq!(transport_kind("http://x").err().as_deref(), Some("unsupported transport URL scheme: http://x"));
}

#[test]
fn messages_route_by_mode() {
    let m = ravn::event::Message::new(ev(Severity::Warning, Payload::Journald(JournaldPayload { unit: None, priority: None, message: "a".into(), extra: vec![] })));
    assert!(matches!(route_message(true, true, &m, Severity::Warning, 0, 10, ), MessageRoute::Accumulate));
    assert!(matches!(route_message(true, true, &m, Severity::Error, 0, 10), MessageRoute::PublishOnly));
    assert!(matches!(route_message(true, true, &m, Severity::Info, 10, 10), MessageRoute::PublishOnly));
    assert!(matches!(route_message(false, true, &m, Severity::Info, 0, 10), MessageRoute::Explain));
    assert!(matches!(route_message(false, false, &m, Severity::Info, 0, 10), MessageRoute::PublishOnly));
}

#[test]
fn new_file_has_no_old_hash_or_diff() {
    let (p, state) = evaluate("/etc/x.conf", None, b"hello\n").expect("new file");
    assert!(p.old_hash.is_none());
    assert!(p.diff.is_none());
    assert_eq!(state.hash, p.new_hash);
    assert!(!p.new_hash.is_empty());
    assert_eq!(p.new_hash, "5891b5b522d5df086d0ff0b110fbd9d21bb4fc7163af34d08286a2e846f6be03");
    assert_eq!(state.text.as_deref(), Some("hello\n"));
}

#[test]
fn unchanged_content_is_dropped() {
    let (_, state) = evaluate("/etc/x.conf", None, b"same\n").unwrap();
    assert!(evaluate("/etc/x.conf", Some(&state), b"same\n").is_none());
}

#[test]
fn changed_text_produces_a_diff() {
    let (_, old) = evaluate("/etc/sshd_config", None, b"PermitRootLogin yes\n").unwrap();
    let (p, _) = evaluate("/etc/sshd_config", Some(&old), b"PermitRootLogin no\n").expect("changed");
    assert!(p.old_hash.is_some());
    assert_ne!(p.old_hash.as_deref(), Some(p.new_hash.as_str()));
    let diff = p.diff.expect("diff present");
    assert!(diff.contains("-PermitRootLogin yes"));
    assert!(diff.contains("+PermitRootLogin no"));
    let checked = evaluate_checked("/etc/sshd_config", Some(&old), b"PermitRootLogin no\n");
    assert!(matches!(checked, Some(Some(_))));
}

#[test]
fn binary_content_keeps_no_text() {
    let (p, state) = evaluate("/etc/bin", None, &[0xff, 0xfe]).unwrap();
    assert!(state.text.is_none());
    assert!(p.diff.is_none());
}

#[test]
fn removed_file_is_reported_when_known() {
    let prev = FileState { hash: "abc".into(), text: None };
    let p = removal_payload("/etc/x", Some(prev)).unwrap();
    assert_eq!(p.new_hash, "(removed)");
    assert_eq!(p.old_hash.as_deref(), Some("abc"));
    assert!(removal_payload("/etc/x", None).is_none());
    let e = drift_event(p, 1, "h", 2, NOW);
    assert_eq!(e.title, "config drift: /etc/x");
    assert_eq!(e.severity, Severity::Warning);
}

#[test]
fn reply_fields_need_an_explanation_and_drop_a_blank_check() {
    assert_eq!(extract_fields(None, Some("ss -ltnp".into())), None);
    assert_eq!(
        extract_fields(Some("  disk full \n".into()), Some("   ".into())),
        Some(("disk full".to_string(), None))
    );
    assert_eq!(
        extract_fields(Some("x".into()), Some(" df -h ".into())),
        Some(("x".to_string(), Some("df -h".to_string())))
    );
    // A reply whose `explanation` is not a string falls back to the raw text.
    let (text, check) = parse_explanation(r#"{"explanation": 7}"#);
    assert_eq!(text, r#"{"explanation": 7}"#);
    assert_eq!(check, None);
}

#[test]
fn config_diff_is_unified_with_the_path_as_headers() {
    let d = unified_diff("/etc/app.conf", "a\nb\nc\n", "a\nB\nc\n");
    assert!(d.starts_with("--- /etc/app.conf\n+++ /etc/app.conf\n"), "{d}");
    assert!(d.contains("-b\n"), "{d}");
    assert!(d.contains("+B\n"), "{d}");
    assert!(d.contains("@@ -1,3 +1,3 @@"), "{d}");
}

#[test]
fn each_failure_episode_is_reported_once_after_its_own_grace() {
    let mut t = GraceTracker::new();
    let grace = 1_500;
    assert!(t.observe(&set(&["a.service"]), 0, grace).is_empty());
    assert!(t.observe(&set(&["a.service"]), 1_000, grace).is_empty());
    assert_eq!(t.observe(&set(&["a.service"]), 2_000, grace), vec!["a.service".to_string()]);
    assert!(t.observe(&set(&["a.service"]), 3_000, grace).is_empty());
    // Recovery ends the episode; the next failure starts a fresh window.
    assert!(t.observe(&set(&[]), 4_000, grace).is_empty());
    assert!(t.observe(&set(&["a.service"]), 5_000, grace).is_empty());
    assert!(t.observe(&set(&["a.service"]), 6_000, grace).is_empty());
    assert_eq!(t.observe(&set(&["a.service"]), 6_500, grace), vec!["a.service".to_string()]);
}

#[test]
fn entry_times_outside_chronos_years_fall_back_to_now() {
    let occurred = |stamp: &str| {
        let rec = record(&[("PRIORITY", "3"), ("MESSAGE", "m"), ("__REALTIME_TIMESTAMP", stamp)]);
        tap().record_to_event(&rec, 5, NOW).unwrap().occurred_at
    };
    assert_eq!(occurred("8210266876799999999"), 8_210_266_876_799_999_999);
    assert_eq!(occurred("8210266876800000000"), NOW);
    assert_eq!(occurred("-8334601228800000000"), -8_334_601_228_800_000_000);
    assert_eq!(occurred("-8334601228800000001"), NOW);
}
