use ravn::eval::{
    default_corpus_dir, hits, salient_tokens, site_page, tally, Category, Reference, SiteReference,
    SiteRun, Tally,
};
use ravn::event::{
    AuthPayload, ConfigDriftPayload, Event, FailedUnitPayload, Payload, Severity,
};

const NOW: i64 = 1_700_000_000_000_000;

fn event(host: &str, payload: Payload) -> Event {
    Event {
        id: 1,
        occurred_at: NOW,
        observed_at: NOW,
        agent_id: 2,
        host: host.into(),
        severity: Severity::Error,
        title: "unit failed: nginx.service".into(),
        category_hints: vec![],
        payload,
    }
}

fn failed_unit_event() -> Event {
    event(
        "web-01",
        Payload::FailedUnit(FailedUnitPayload {
            unit: "nginx.service".into(),
            result: "exit-code".into(),
            recent_log: vec![],
            extra: vec![],
        }),
    )
}

fn reference() -> Reference {
    Reference {
        category: Category::FailedUnit,
        reference_explanation: "nginx failed to bind port 80".into(),
        must_mention: vec!["80".into(), "bind".into()],
        forbidden: vec!["out of memory".into(), "disk full".into()],
        expected_check: Some("ss -ltnp sport = :80".into()),
        check_keywords: vec!["ss".into(), "80".into()],
    }
}

/// The rubric's fractions, from the whole-number tallies.
fn grounded(t: &Tally) -> f64 {
    if t.anchors == 0 { 1.0 } else { t.anchor_hits as f64 / t.anchors as f64 }
}

fn no_hallucination(t: &Tally) -> f64 {
    if t.forbidden == 0 { 1.0 } else { 1.0 - t.forbidden_hits as f64 / t.forbidden as f64 }
}

fn specificity(t: &Tally) -> f64 {
    if t.check_keywords == 0 {
        if t.has_check { 1.0 } else { 0.0 }
    } else if t.has_check {
        t.check_hits as f64 / t.check_keywords as f64
    } else {
        0.0
    }
}

fn faithfulness(t: &Tally) -> f64 {
    if !t.non_empty { 0.0 } else { 0.5 * grounded(t) + 0.5 * no_hallucination(t) }
}

fn actionability(t: &Tally) -> f64 {
    if !t.has_check { 0.0 } else { 0.5 + 0.5 * specificity(t) }
}

fn overall(t: &Tally) -> f64 {
    if !t.non_empty {
        0.0
    } else {
        0.6 * faithfulness(t) + 0.3 * actionability(t) + 0.1 * if t.length_ok { 1.0 } else { 0.0 }
    }
}

#[test]
fn salient_tokens_come_from_payload() {
    let toks = salient_tokens(&failed_unit_event());
    assert!(toks.contains(&"web-01".to_string()));
    assert!(toks.contains(&"nginx.service".to_string()));
    assert!(toks.contains(&"exit-code".to_string()));
    assert_eq!(toks.len(), 3);
}

#[test]
fn config_drift_tokens_use_the_base_name_and_drop_blanks() {
    let ev = event(
        " ",
        Payload::ConfigDrift(ConfigDriftPayload {
            path: "/etc/ssh/sshd_config".into(),
            old_hash: None,
            new_hash: "h".into(),
            diff: None,
            extra: vec![],
        }),
    );
    assert_eq!(salient_tokens(&ev), vec!["sshd_config".to_string()]);
    let auth = event(
        "db-1",
        Payload::Auth(AuthPayload {
            action: "ssh_failed".into(),
            user: Some("root".into()),
            remote_addr: None,
            succeeded: false,
            extra: vec![],
        }),
    );
    assert_eq!(
        salient_tokens(&auth),
        vec!["db-1".to_string(), "ssh_failed".to_string(), "root".to_string()]
    );
}

#[test]
fn faithful_actionable_explanation_scores_high() {
    let t = tally(
        &failed_unit_event(),
        &reference(),
        "nginx.service on web-01 failed with an exit-code result because it could not bind to port 80.",
        Some("ss -ltnp sport = :80"),
    );
    assert_eq!(t.anchors, 5);
    assert_eq!(t.anchor_hits, 5, "all anchors present");
    assert_eq!(t.forbidden_hits, 0, "no forbidden facts");
    assert!(t.has_check && t.check_hits == t.check_keywords);
    assert_eq!(grounded(&t), 1.0);
    assert_eq!(no_hallucination(&t), 1.0);
    assert!(faithfulness(&t) > 0.99);
    assert!(actionability(&t) > 0.99);
    assert!(overall(&t) > 0.95);
}

#[test]
fn hallucinated_fact_tanks_faithfulness() {
    let t = tally(
        &failed_unit_event(),
        &reference(),
        "nginx.service on web-01 failed with exit-code because the host ran out of memory while binding port 80.",
        Some("ss -ltnp sport = :80"),
    );
    assert_eq!(grounded(&t), 1.0);
    assert_eq!(t.forbidden_hits, 1, "tripped an OOM trap");
    assert!(no_hallucination(&t) < 1.0);
    assert!(faithfulness(&t) < 0.85, "invented fact must drag faithfulness down");
}

#[test]
fn generic_check_is_less_actionable_than_specific() {
    let specific = tally(
        &failed_unit_event(),
        &reference(),
        "nginx.service on web-01 failed (exit-code); port 80 bind failed.",
        Some("ss -ltnp sport = :80"),
    );
    let generic = tally(
        &failed_unit_event(),
        &reference(),
        "nginx.service on web-01 failed (exit-code); port 80 bind failed.",
        Some("please investigate the service"),
    );
    assert!(specific.check_hits > generic.check_hits);
    assert!(actionability(&specific) > actionability(&generic));
}

#[test]
fn empty_explanation_scores_zero() {
    let t = tally(&failed_unit_event(), &reference(), "   ", None);
    assert!(!t.non_empty);
    assert!(!t.has_check);
    assert!(!t.length_ok);
    assert_eq!(overall(&t), 0.0);
    assert_eq!(faithfulness(&t), 0.0);
}

#[test]
fn hits_ignore_case_of_needles() {
    let needles = vec!["NGINX".to_string(), "port".to_string(), "absent".to_string()];
    assert_eq!(hits("nginx bound to port 80", &needles), 2);
}

#[test]
fn category_labels_and_corpus_dir() {
    assert_eq!(Category::FailedUnit.label(), "failed unit");
    assert_eq!(Category::OomKill.label(), "OOM kill");
    assert_eq!(Category::AuthAnomaly.label(), "auth anomaly");
    assert_eq!(Category::ConfigDrift.label(), "config drift");
    assert_eq!(default_corpus_dir("/src/ravn-eval"), "/src/ravn-eval/fixtures/corpus");
    assert_eq!(default_corpus_dir("/src/ravn-eval/"), "/src/ravn-eval/fixtures/corpus");
}

fn site_reference() -> SiteReference {
    SiteReference {
        name: "nginx-bind".into(),
        category: Category::FailedUnit.label().to_string(),
        explanation: "nginx could not bind port 80".into(),
        check: Some("ss -ltnp sport = :80".into()),
    }
}

#[test]
fn site_page_notes_recorded_runs() {
    let runs = vec![SiteRun { model: "m".into(), captured_on: "test CPU".into(), recorded: true }];
    let page = site_page("TABLE\n", "CATEGORIES\n", 6, &runs, &vec![site_reference()]);
    assert!(page.contains("recorded"));
    assert!(page.contains("## Headline results"));
    assert!(page.contains("## Methodology"));
    assert!(page.contains("## Reference answers"));
    assert!(page.contains("### Recorded-run provenance"));
    assert!(page.contains("test CPU"));
}

#[test]
fn site_page_lays_out_sections_in_order() {
    let runs = vec![
        SiteRun { model: "m1".into(), captured_on: "test CPU".into(), recorded: true },
        SiteRun { model: "m2".into(), captured_on: String::new(), recorded: false },
    ];
    let page = site_page("TABLE\n", "CATEGORIES\n", 12, &runs, &vec![site_reference()]);
    assert!(page.starts_with("# Can a sub-2B CPU model handle the explanation last-mile?\n\n"));
    assert!(page.contains("**Corpus:** 12 events across failed units"));
    assert!(page.contains("## Headline results\n\nTABLE\n\n## By category (overall quality)\n\nCATEGORIES\n\n## Methodology"));
    assert!(page.contains("### Recorded-run provenance\n\n- **m1** \u{2014} test CPU\n\n## Reference answers"));
    assert!(!page.contains("> **Note:**"), "a live run means no all-recorded note");
    assert!(page.ends_with(
        "### nginx-bind \u{2014} failed unit\n\nnginx could not bind port 80\n\nIdeal check: `ss -ltnp sport = :80`\n\n"
    ));
}
