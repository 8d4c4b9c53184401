use ravn::actuator::ExecError;
use ravn::event::{Payload, Severity};
use ravn::kube::{
    container_from_field_path, is_valid_k8s_name, log_error_event, matches_error, node_signals,
    pod_state, route_capability, signal_event, validate_ns_and_name, workload_event, EventMemory,
    KubeCall, KubeConfig, KubeEnv, KubeEventInfo, LogMemory, NodeConditionInfo, NodeInfo,
    NodeWatch, PodSummary,
};
use ravn::remediation::Capability;

const NOW: i64 = 1_700_000_000_000_000;

#[test]
fn valid_k8s_names_accepted() {
    assert!(is_valid_k8s_name("ravn-test"));
    assert!(is_valid_k8s_name("my-deployment-7d9f6"));
    assert!(is_valid_k8s_name("crasher"));
    assert!(is_valid_k8s_name("api.v2"));
    assert!(is_valid_k8s_name("a"));
}

#[test]
fn invalid_k8s_names_rejected() {
    assert!(!is_valid_k8s_name(""));
    assert!(!is_valid_k8s_name("-starts-with-dash"));
    assert!(!is_valid_k8s_name("ends-with-dash-"));
    assert!(!is_valid_k8s_name(".starts-with-dot"));
    assert!(!is_valid_k8s_name("UPPERCASE"));
    assert!(!is_valid_k8s_name("has space"));
    assert!(!is_valid_k8s_name("has/slash"));
    // 254 chars — over the 253 limit
    assert!(!is_valid_k8s_name(&"a".repeat(254)));
    assert!(is_valid_k8s_name(&"a".repeat(253)));
}

#[test]
fn validate_ns_and_name_errors_on_bad_namespace() {
    let err = validate_ns_and_name("BAD-NS", "ok-pod", "pod name").unwrap_err();
    assert!(err.0.contains("namespace"), "error should mention namespace, got: {}", err.0);
    assert_eq!(err.0, "invalid Kubernetes namespace: \"BAD-NS\"");
}

#[test]
fn validate_ns_and_name_errors_on_bad_pod_name() {
    let err = validate_ns_and_name("good-ns", "BAD POD", "pod name").unwrap_err();
    assert!(err.0.contains("pod name"), "error should mention pod name, got: {}", err.0);
    assert_eq!(err.0, "invalid Kubernetes pod name: \"BAD POD\"");
}

#[test]
fn validate_ns_and_name_passes_for_valid_inputs() {
    validate_ns_and_name("ravn-test", "crasher-7d9f6-abc12", "pod name").unwrap();
}

#[test]
fn host_capabilities_return_exec_error() {
    let expected = ExecError(
        "host systemd capability is not supported by the K8s executor; route to the host actuator instead"
            .to_string(),
    );
    for cap in [
        Capability::RestartUnit { unit: "nginx.service".into() },
        Capability::ResetFailed { unit: "nginx.service".into() },
        Capability::UnitState { unit: "nginx.service".into() },
        Capability::NixRollback,
    ] {
        match route_capability(&cap) {
            Err(e) => assert_eq!(e, expected),
            Ok(_) => panic!("a host capability must not reach the cluster"),
        }
    }
    assert!(!is_valid_k8s_name(""));
}

#[test]
fn kube_capabilities_route_to_their_calls() {
    let cap = Capability::DeletePod { namespace: "ravn-test".into(), pod: "crasher-1".into() };
    match route_capability(&cap) {
        Ok(KubeCall::DeletePod { namespace, pod }) => {
            assert_eq!(namespace, "ravn-test");
            assert_eq!(pod, "crasher-1");
        }
        _ => panic!("expected a pod deletion"),
    }
    let bad = Capability::RestartDeployment { namespace: "ns".into(), deployment: "Bad".into() };
    match route_capability(&bad) {
        Err(e) => assert_eq!(e.0, "invalid Kubernetes deployment name: \"Bad\""),
        Ok(_) => panic!("an invalid deployment name must be refused"),
    }
}

fn pod(name: &str, phase: Option<&str>) -> PodSummary {
    PodSummary { name: Some(name.into()), phase: phase.map(|p| p.into()) }
}

#[test]
fn pod_state_reports_first_non_running_phase() {
    let pods = vec![
        pod("web-1", Some("Running")),
        pod("api-1", Some("Running")),
        pod("api-2", Some("Pending")),
        pod("api-3", Some("Failed")),
    ];
    assert_eq!(pod_state(&pods, "ns", "api").unwrap(), Some("Pending".to_string()));
    assert_eq!(pod_state(&pods, "ns", "web").unwrap(), Some("Running".to_string()));
    let err = pod_state(&pods, "ns", "db").unwrap_err();
    assert_eq!(err.0, "no pod with prefix \"db\" found in namespace ns");
    let unknown = vec![pod("x-1", None)];
    assert_eq!(pod_state(&unknown, "ns", "x").unwrap(), Some("Unknown".to_string()));
}

#[test]
fn error_lines_are_recognised_case_insensitively() {
    assert!(matches_error("ERROR: db connection refused"));
    assert!(matches_error("java.lang.NullPointerException"));
    assert!(matches_error("host unreachable"));
    assert!(!matches_error("all good"));
}

fn kube_event(reason: &str, type_: &str) -> KubeEventInfo {
    KubeEventInfo {
        uid: Some("uid-1".into()),
        reason: Some(reason.into()),
        type_: Some(type_.into()),
        message: Some("back-off restarting failed container".into()),
        count: Some(7),
        namespace: Some("ravn-test".into()),
        kind: Some("Pod".into()),
        name: Some("crasher".into()),
        field_path: Some("spec.containers{crasher}".into()),
        last_timestamp: Some(NOW - 5),
        first_timestamp: Some(NOW - 10),
    }
}

#[test]
fn warning_backoff_maps_to_kube_workload() {
    let ev = workload_event(&kube_event("BackOff", "Warning"), 0, "ravn-dev", 1, NOW)
        .expect("a Warning BackOff must surface");
    assert_eq!(ev.severity, Severity::Error);
    assert_eq!(ev.host, "ravn-dev");
    assert_eq!(ev.occurred_at, NOW - 5);
    assert_eq!(ev.title, "BackOff: Pod ravn-test/crasher");
    assert_eq!(ev.category_hints, vec!["ravn-test".to_string(), "kubernetes".to_string()]);
    match &ev.payload {
        Payload::KubeWorkload(p) => {
            assert_eq!(p.namespace, "ravn-test");
            assert_eq!(p.object_kind, "Pod");
            assert_eq!(p.name, "crasher");
            assert_eq!(p.reason, "BackOff");
            assert_eq!(p.count, Some(7));
            assert_eq!(p.container.as_deref(), Some("crasher"));
        }
        other => panic!("expected kube_workload, got {other:?}"),
    }
}

#[test]
fn normal_lifecycle_events_are_dropped() {
    assert!(workload_event(&kube_event("Started", "Normal"), 0, "h", 1, NOW).is_none());
    assert!(workload_event(&kube_event("Pulled", "Normal"), 0, "h", 1, NOW).is_none());
}

#[test]
fn normal_but_severe_reason_still_surfaces() {
    let ev = workload_event(&kube_event("OOMKilled", "Normal"), 0, "h", 1, NOW)
        .expect("a severe reason must surface regardless of type");
    assert_eq!(ev.severity, Severity::Critical);
}

#[test]
fn event_without_reason_is_skipped() {
    let mut ev = kube_event("BackOff", "Warning");
    ev.reason = None;
    assert!(workload_event(&ev, 0, "h", 1, NOW).is_none());
}

#[test]
fn negative_counts_clamp_to_zero_and_missing_kind_shortens_title() {
    let mut ev = kube_event("BackOff", "Warning");
    ev.count = Some(-3);
    ev.kind = None;
    let e = workload_event(&ev, 0, "h", 1, NOW).unwrap();
    assert_eq!(e.title, "BackOff in ravn-test");
    match &e.payload {
        Payload::KubeWorkload(p) => assert_eq!(p.count, Some(0)),
        other => panic!("expected kube_workload, got {other:?}"),
    }
}

#[test]
fn field_path_without_container_yields_none() {
    assert_eq!(container_from_field_path("spec.containers{web}").as_deref(), Some("web"));
    assert_eq!(container_from_field_path("status"), None);
    assert_eq!(container_from_field_path("spec.containers{}"), None);
}

#[test]
fn event_memory_reports_only_new_or_changed_counts() {
    let mut mem = EventMemory::new();
    let ev = kube_event("BackOff", "Warning");
    mem.remember(&ev);
    assert!(!mem.is_new_or_changed(&ev));
    let mut bumped = kube_event("BackOff", "Warning");
    bumped.count = Some(8);
    assert!(mem.is_new_or_changed(&bumped));
    assert!(!mem.is_new_or_changed(&bumped));
    let mut anonymous = kube_event("BackOff", "Warning");
    anonymous.uid = None;
    assert!(mem.is_new_or_changed(&anonymous));
}

#[test]
fn event_memory_ignores_a_count_that_goes_down() {
    let mut mem = EventMemory::new();
    let mut ev = kube_event("BackOff", "Warning");
    ev.count = Some(5);
    mem.remember(&ev);
    let mut lower = kube_event("BackOff", "Warning");
    lower.count = Some(3);
    assert!(!mem.is_new_or_changed(&lower));
    // The lower count is now the remembered one, so 4 has advanced.
    let mut next = kube_event("BackOff", "Warning");
    next.count = Some(4);
    assert!(mem.is_new_or_changed(&next));
}

fn node(name: &str, conds: Vec<(&str, &str)>) -> NodeInfo {
    NodeInfo {
        name: Some(name.into()),
        conditions: Some(
            conds
                .into_iter()
                .map(|(t, s)| NodeConditionInfo {
                    type_: t.into(),
                    status: s.into(),
                    message: Some(format!("{t} is {s}")),
                    last_transition: Some(NOW - 1),
                })
                .collect(),
        ),
    }
}

#[test]
fn healthy_node_yields_no_signals() {
    let n = node("node-a", vec![("Ready", "True"), ("MemoryPressure", "False")]);
    assert!(node_signals(&n).is_empty());
}

#[test]
fn memory_pressure_maps_to_kube_node_error() {
    let n = node("node-a", vec![("Ready", "True"), ("MemoryPressure", "True")]);
    let sigs = node_signals(&n);
    assert_eq!(sigs.len(), 1);
    let ev = signal_event(&sigs[0], "node-a", 0, "node-a", 1, NOW);
    assert_eq!(ev.severity, Severity::Error);
    assert_eq!(ev.title, "MemoryPressure on node node-a");
    assert_eq!(ev.occurred_at, NOW - 1);
    match &ev.payload {
        Payload::KubeNode(p) => {
            assert_eq!(p.node, "node-a");
            assert_eq!(p.condition, "MemoryPressure");
        }
        other => panic!("expected kube_node, got {other:?}"),
    }
}

#[test]
fn ready_false_maps_to_not_ready_critical() {
    let n = node("node-a", vec![("Ready", "False")]);
    let sigs = node_signals(&n);
    assert_eq!(sigs.len(), 1);
    assert_eq!(sigs[0].condition, "NodeNotReady");
    let ev = signal_event(&sigs[0], "node-a", 0, "node-a", 1, NOW);
    assert_eq!(ev.severity, Severity::Critical);
}

#[test]
fn multiple_active_conditions_each_emit() {
    let n = node("node-a", vec![("Ready", "Unknown"), ("DiskPressure", "True"), ("PIDPressure", "True")]);
    assert_eq!(node_signals(&n).len(), 3);
}

#[test]
fn reconcile_emits_once_per_transition_and_rearms() {
    let mut watch = NodeWatch::new();
    let pressured = node("node-a", vec![("MemoryPressure", "True")]);
    let healthy = node("node-a", vec![("MemoryPressure", "False")]);

    // First sighting: one fresh signal.
    assert_eq!(watch.reconcile(&pressured, "node-a", true).len(), 1);
    // Still pressured, no transition: no new signal.
    assert_eq!(watch.reconcile(&pressured, "node-a", true).len(), 0);
    // Cleared: no signal, but the condition re-arms.
    assert_eq!(watch.reconcile(&healthy, "node-a", true).len(), 0);
    // Pressured again: a fresh signal fires.
    assert_eq!(watch.reconcile(&pressured, "node-a", true).len(), 1);
}

#[test]
fn seeding_does_not_emit() {
    let mut watch = NodeWatch::new();
    let pressured = node("node-a", vec![("MemoryPressure", "True")]);
    // emit=false seeds state silently...
    assert_eq!(watch.reconcile(&pressured, "node-a", false).len(), 0);
    // ...so a subsequent identical listing produces nothing.
    assert_eq!(watch.reconcile(&pressured, "node-a", true).len(), 0);
}

#[test]
fn cluster_config_resolves_from_environment() {
    let env = KubeEnv {
        nats_url: None,
        controller_id: Some("0190a1b2-c3d4-7e5f-8a9b-0c1d2e3f4a5b".into()),
        cluster: Some("".into()),
        hostname: Some("node-a".into()),
        namespace: Some("ravn".into()),
    };
    let c = KubeConfig::resolve(&env, 5).unwrap();
    assert_eq!(c.nats_url, "nats://127.0.0.1:4222");
    assert_eq!(c.agent_id, 0x0190a1b2_c3d4_7e5f_8a9b_0c1d2e3f4a5b);
    assert_eq!(c.host, "node-a");
    assert_eq!(c.namespace.as_deref(), Some("ravn"));

    let bad = KubeEnv { controller_id: Some("not-a-uuid".into()), ..env };
    assert!(KubeConfig::resolve(&bad, 5).is_err());
    let none = KubeEnv { nats_url: None, controller_id: None, cluster: None, hostname: None, namespace: None };
    let c = KubeConfig::resolve(&none, 5).unwrap();
    assert_eq!(c.agent_id, 5);
    assert_eq!(c.host, "kubernetes");
}

#[test]
fn log_errors_become_workload_signals_once() {
    let ev = log_error_event("shop", "api-1", "ERROR db connection refused", 3, "cluster-a", 9, NOW);
    assert_eq!(ev.id, 9);
    assert_eq!(ev.severity, Severity::Error);
    assert_eq!(ev.title, "LogError in Pod shop/api-1: ERROR db connection refused");
    assert_eq!(
        ev.category_hints,
        vec!["shop".to_string(), "kubernetes".to_string(), "log".to_string()]
    );
    match &ev.payload {
        Payload::KubeWorkload(p) => {
            assert_eq!(p.reason, "LogError");
            assert_eq!(p.object_kind, "Pod");
            assert_eq!(p.message.as_deref(), Some("ERROR db connection refused"));
            assert_eq!(p.count, Some(1));
        }
        other => panic!("expected kube_workload, got {other:?}"),
    }

    let mut memory = LogMemory::new();
    assert!(memory.first_sighting("api-1", "ERROR x"));
    assert!(!memory.first_sighting("api-1", "ERROR x"));
    assert!(memory.first_sighting("api-2", "ERROR x"));
    memory.start_round();
    assert!(!memory.first_sighting("api-1", "ERROR x"));
}

#[test]
fn error_matching_ignores_ascii_case() {
    for line in ["Fatal: disk gone", "Connection Failed to db", "java.lang.NullPointerException", "All good"] {
        let expected = matches_error(line);
        assert_eq!(matches_error(&line.to_ascii_uppercase()), expected, "{line}");
        assert_eq!(matches_error(&line.to_ascii_lowercase()), expected, "{line}");
    }
    assert!(matches_error("FATAL"));
    assert!(!matches_error("ALL GOOD"));
}
