//! Kubernetes-side logic: resource-name validation for the in-cluster
//! executor and the state it reports for a pod prefix; the mapping of cluster
//! events to workload signals and their deduplication; node conditions as
//! signals, raised once per transition; and the error filter for pod logs.

use vstd::prelude::*;

use crate::actuator::ExecError;
use crate::event::{
    kube_severity_for_reason, kube_severity_spec, Event, KubeNodePayload, KubeWorkloadPayload, Payload,
    Severity,
};
use crate::failed_unit::names_has;
use crate::remediation::{Capability, CapabilityView};
use crate::text::{
    cat, chars_of, contains, contains_exec, copy_string, debug_quoted, debug_str, find, find_exec,
    index_of, lemma_find_bounds, matches_at, opt_chars, slice_range, starts_with, starts_with_exec,
    str_is, string_of,
};

verus! {

/// A character allowed in a Kubernetes resource name: lower-case ASCII letter,
/// digit, `-` or `.`.
pub open spec fn name_char(c: char) -> bool {
    ('a' <= c && c <= 'z') || ('0' <= c && c <= '9') || c == '-' || c == '.'
}

/// A Kubernetes resource name: one to 253 characters from `[a-z0-9-.]`,
/// neither starting nor ending with `-` or `.`.
pub open spec fn valid_k8s_name(s: Seq<char>) -> bool {
    &&& 0 < s.len() <= 253
    &&& forall|i: int| 0 <= i < s.len() ==> name_char(#[trigger] s[i])
    &&& s[0] != '-' && s[0] != '.'
    &&& s.last() != '-' && s.last() != '.'
}

/// Validate a Kubernetes resource (or namespace) name.
pub fn is_valid_k8s_name(name: &str) -> (b: bool)
    ensures
        b == valid_k8s_name(name@),
{
    let v = chars_of(name);
    let n = v.len();
    if n == 0 || n > 253 {
        return false;
    }
    if v[0] == '-' || v[0] == '.' || v[n - 1] == '-' || v[n - 1] == '.' {
        return false;
    }
    let mut i: usize = 0;
    while i < n
        invariant
            n == v@.len(),
            v@ == name@,
            i <= n,
            forall|k: int| 0 <= k < i ==> name_char(#[trigger] v@[k]),
        decreases n - i,
    {
        let c = v[i];
        if !(('a' <= c && c <= 'z') || ('0' <= c && c <= '9') || c == '-' || c == '.') {
            return false;
        }
        i = i + 1;
    }
    true
}

/// The error for an invalid namespace / resource pair, if any: the
/// namespace first, then the resource, named by `label`.
pub open spec fn ns_and_name_fault(namespace: Seq<char>, name: Seq<char>, label: Seq<char>) -> Option<
    Seq<char>,
> {
    if !valid_k8s_name(namespace) {
        Some("invalid Kubernetes namespace: "@ + debug_str(namespace))
    } else if !valid_k8s_name(name) {
        Some("invalid Kubernetes "@ + label + ": "@ + debug_str(name))
    } else {
        None
    }
}

/// Validate both fields of a (namespace, resource) pair.
pub fn validate_ns_and_name(namespace: &str, name: &str, name_label: &str) -> (r: Result<(), ExecError>)
    ensures
        match r {
            Ok(_) => ns_and_name_fault(namespace@, name@, name_label@) is None,
            Err(e) => ns_and_name_fault(namespace@, name@, name_label@) == Some(e.0@),
        },
{
    if !is_valid_k8s_name(namespace) {
        let d = debug_quoted(namespace);
        return Err(ExecError(cat("invalid Kubernetes namespace: ", d.as_str())));
    }
    if !is_valid_k8s_name(name) {
        let d = debug_quoted(name);
        let a = cat("invalid Kubernetes ", name_label);
        let b = cat(a.as_str(), ": ");
        return Err(ExecError(cat(b.as_str(), d.as_str())));
    }
    Ok(())
}

/// What the in-cluster executor does with a capability.
#[derive(Debug, Clone, PartialEq, Eq)]
pub enum KubeCall {
    /// Delete this pod in this namespace.
    DeletePod { namespace: String, pod: String },
    /// Roll this deployment in this namespace.
    RestartDeployment { namespace: String, deployment: String },
    /// List the pods of this namespace and report the state of those whose
    /// name starts with the prefix.
    PodState { namespace: String, pod_prefix: String },
}

/// The error the in-cluster executor gives a host capability.
pub open spec fn host_capability_text() -> Seq<char> {
    "host systemd capability is not supported by the K8s executor; route to the host actuator instead"@
}

/// How the in-cluster executor handles a capability: a host capability is an
/// error; a Kubernetes one is validated (namespace first, then the resource,
/// named `pod name`, `deployment name` or `pod prefix`) before its API call.
pub open spec fn kube_route(c: CapabilityView) -> Result<CapabilityView, Seq<char>> {
    match c {
        CapabilityView::DeletePod { namespace, pod } => match ns_and_name_fault(
            namespace,
            pod,
            "pod name"@,
        ) {
            Some(e) => Err(e),
            None => Ok(c),
        },
        CapabilityView::RestartDeployment { namespace, deployment } => match ns_and_name_fault(
            namespace,
            deployment,
            "deployment name"@,
        ) {
            Some(e) => Err(e),
            None => Ok(c),
        },
        CapabilityView::PodState { namespace, pod_prefix } => match ns_and_name_fault(
            namespace,
            pod_prefix,
            "pod prefix"@,
        ) {
            Some(e) => Err(e),
            None => Ok(c),
        },
        _ => Err(host_capability_text()),
    }
}

/// The view of a [`KubeCall`] as the capability it performs.
pub open spec fn call_view(k: KubeCall) -> CapabilityView {
    match k {
        KubeCall::DeletePod { namespace, pod } => CapabilityView::DeletePod {
            namespace: namespace@,
            pod: pod@,
        },
        KubeCall::RestartDeployment { namespace, deployment } => CapabilityView::RestartDeployment {
            namespace: namespace@,
            deployment: deployment@,
        },
        KubeCall::PodState { namespace, pod_prefix } => CapabilityView::PodState {
            namespace: namespace@,
            pod_prefix: pod_prefix@,
        },
    }
}

/// Decide the cluster call for a capability, or the error to report.
pub fn route_capability(cap: &Capability) -> (r: Result<KubeCall, ExecError>)
    ensures
        match r {
            Ok(k) => kube_route(cap@) == Ok::<CapabilityView, Seq<char>>(call_view(k)),
            Err(e) => kube_route(cap@) == Err::<CapabilityView, Seq<char>>(e.0@),
        },
{
    match cap {
        Capability::DeletePod { namespace, pod } => {
            validate_ns_and_name(namespace.as_str(), pod.as_str(), "pod name")?;
            Ok(KubeCall::DeletePod { namespace: copy_string(namespace), pod: copy_string(pod) })
        },
        Capability::RestartDeployment { namespace, deployment } => {
            validate_ns_and_name(namespace.as_str(), deployment.as_str(), "deployment name")?;
            Ok(
                KubeCall::RestartDeployment {
                    namespace: copy_string(namespace),
                    deployment: copy_string(deployment),
                },
            )
        },
        Capability::PodState { namespace, pod_prefix } => {
            validate_ns_and_name(namespace.as_str(), pod_prefix.as_str(), "pod prefix")?;
            Ok(
                KubeCall::PodState {
                    namespace: copy_string(namespace),
                    pod_prefix: copy_string(pod_prefix),
                },
            )
        },
        _ => Err(
            ExecError(
                "host systemd capability is not supported by the K8s executor; route to the host actuator instead".to_string(),
            ),
        ),
    }
}

/// A listed pod: its name and phase, when known.
#[derive(Debug, Clone, PartialEq, Eq)]
pub struct PodSummary {
    pub name: Option<String>,
    pub phase: Option<String>,
}

/// The pods of `pods` whose name starts with `prefix`, in listing order.
pub open spec fn matching_pods(pods: Seq<PodSummary>, prefix: Seq<char>) -> Seq<PodSummary>
    decreases pods.len(),
{
    if pods.len() == 0 {
        seq![]
    } else {
        let rest = matching_pods(pods.drop_last(), prefix);
        if pods.last().name matches Some(n) && starts_with(n@, prefix) {
            rest.push(pods.last())
        } else {
            rest
        }
    }
}

/// A pod's phase, `Unknown` when it has none.
pub open spec fn phase_of(p: PodSummary) -> Seq<char> {
    match p.phase {
        Some(ph) => ph@,
        None => "Unknown"@,
    }
}

/// The state reported for the pods matching a prefix: the phase of the first
/// one not `Running`, or `Running` when all are.
pub open spec fn reported_phase(pods: Seq<PodSummary>) -> Seq<char>
    decreases pods.len(),
{
    if pods.len() == 0 {
        "Running"@
    } else if phase_of(pods[0]) != "Running"@ {
        phase_of(pods[0])
    } else {
        reported_phase(pods.drop_first())
    }
}

/// The outcome of a pod-state check over the pods listed in `namespace`:
/// an error when no pod name starts with `prefix`, otherwise the state of
/// the matching pods.
pub open spec fn pod_state_outcome(pods: Seq<PodSummary>, namespace: Seq<char>, prefix: Seq<char>) -> Result<
    Seq<char>,
    Seq<char>,
> {
    let m = matching_pods(pods, prefix);
    if m.len() == 0 {
        Err("no pod with prefix "@ + debug_str(prefix) + " found in namespace "@ + namespace)
    } else {
        Ok(reported_phase(m))
    }
}

/// The state the in-cluster executor reports for the pods of `namespace`
/// whose name starts with `prefix`, from the namespace's pod listing.
pub fn pod_state(pods: &Vec<PodSummary>, namespace: &str, prefix: &str) -> (r: Result<
    Option<String>,
    ExecError,
>)
    ensures
        match r {
            Ok(s) => s matches Some(x) && pod_state_outcome(pods@, namespace@, prefix@) == Ok::<
                Seq<char>,
                Seq<char>,
            >(x@),
            Err(e) => pod_state_outcome(pods@, namespace@, prefix@) == Err::<Seq<char>, Seq<char>>(
                e.0@,
            ),
        },
{
    let pv = chars_of(prefix);
    let mut found = false;
    let mut state: Option<String> = None;
    let mut i: usize = 0;
    let ghost mut m: Seq<PodSummary> = seq![];
    while i < pods.len()
        invariant
            i <= pods@.len(),
            pv@ == prefix@,
            m == matching_pods(pods@.take(i as int), prefix@),
            found == (m.len() > 0),
            match state {
                Some(s) => {
                    &&& exists|k: int|
                        0 <= k < m.len() && phase_of(#[trigger] m[k]) != "Running"@
                    &&& s@ == reported_phase(m)
                },
                None => forall|k: int| 0 <= k < m.len() ==> phase_of(#[trigger] m[k]) == "Running"@,
            },
        decreases pods@.len() - i,
    {
        assert(pods@.take(i + 1).drop_last() =~= pods@.take(i as int));
        assert(pods@.take(i + 1).last() == pods@[i as int]);
        let is_match = match &pods[i].name {
            Some(n) => {
                let nv = chars_of(n.as_str());
                starts_with_exec(&nv, &pv)
            },
            None => false,
        };
        if is_match {
            let ghost m0 = m;
            proof {
                m = m0.push(pods@[i as int]);
                assert(m[m0.len() as int] == pods@[i as int]);
                assert forall|k: int| 0 <= k < m0.len() implies m[k] == m0[k] by {}
            }
            found = true;
            if state.is_none() {
                let ph = match &pods[i].phase {
                    Some(p) => copy_string(p),
                    None => "Unknown".to_string(),
                };
                proof {
                    reveal_strlit("Unknown");
                    lemma_phase_push_running(m0, pods@[i as int]);
                }
                assert(ph@ == phase_of(pods@[i as int]));
                if !str_is(ph.as_str(), "Running") {
                    assert(phase_of(m[m0.len() as int]) != "Running"@);
                    state = Some(ph);
                } else {
                    assert forall|k: int| 0 <= k < m.len() implies phase_of(#[trigger] m[k])
                        == "Running"@ by {
                        if k < m0.len() {
                            assert(m[k] == m0[k]);
                        }
                    }
                }
            } else {
                proof {
                    let k = choose|k: int| 0 <= k < m0.len() && phase_of(#[trigger] m0[k]) != "Running"@;
                    lemma_phase_push_settled(m0, pods@[i as int], k);
                    assert(m[k] == m0[k]);
                }
            }
        }
        i = i + 1;
    }
    assert(pods@.take(i as int) =~= pods@);
    if !found {
        let d = debug_quoted(prefix);
        let a = cat("no pod with prefix ", d.as_str());
        let b = cat(a.as_str(), " found in namespace ");
        return Err(ExecError(cat(b.as_str(), namespace)));
    }
    match state {
        Some(s) => Ok(Some(s)),
        None => {
            proof {
                lemma_all_running(m);
            }
            Ok(Some("Running".to_string()))
        },
    }
}

proof fn lemma_all_running(m: Seq<PodSummary>)
    requires
        forall|k: int| 0 <= k < m.len() ==> phase_of(#[trigger] m[k]) == "Running"@,
    ensures
        reported_phase(m) == "Running"@,
    decreases m.len(),
{
    if m.len() > 0 {
        assert(phase_of(m[0]) == "Running"@);
        assert forall|k: int| 0 <= k < m.drop_first().len() implies phase_of(
            #[trigger] m.drop_first()[k],
        ) == "Running"@ by {
            assert(m.drop_first()[k] == m[k + 1]);
        }
        lemma_all_running(m.drop_first());
    }
}

proof fn lemma_phase_push_settled(m: Seq<PodSummary>, p: PodSummary, k: int)
    requires
        0 <= k < m.len(),
        phase_of(m[k]) != "Running"@,
    ensures
        reported_phase(m.push(p)) == reported_phase(m),
    decreases m.len(),
{
    assert(m.push(p)[0] == m[0]);
    assert(m.push(p).drop_first() =~= m.drop_first().push(p));
    if phase_of(m[0]) == "Running"@ {
        assert(k > 0);
        assert(m.drop_first()[k - 1] == m[k]);
        lemma_phase_push_settled(m.drop_first(), p, k - 1);
    }
}

proof fn lemma_phase_push_running(m: Seq<PodSummary>, p: PodSummary)
    requires
        forall|k: int| 0 <= k < m.len() ==> phase_of(#[trigger] m[k]) == "Running"@,
    ensures
        reported_phase(m.push(p)) == (if phase_of(p) != "Running"@ {
            phase_of(p)
        } else {
            "Running"@
        }),
    decreases m.len(),
{
    if m.len() == 0 {
        assert(m.push(p)[0] == p);
        assert(m.push(p).drop_first() =~= Seq::<PodSummary>::empty());
        assert(reported_phase(Seq::<PodSummary>::empty()) == "Running"@);
    } else {
        assert(m.push(p)[0] == m[0]);
        assert(m.push(p).drop_first() =~= m.drop_first().push(p));
        assert(phase_of(m[0]) == "Running"@);
        assert forall|k: int| 0 <= k < m.drop_first().len() implies phase_of(
            #[trigger] m.drop_first()[k],
        ) == "Running"@ by {
            assert(m.drop_first()[k] == m[k + 1]);
        }
        lemma_phase_push_running(m.drop_first(), p);
    }
}

/// The container a field path such as `spec.containers{web}` names: the text
/// between the first `{` and the next `}`, when non-empty.
pub open spec fn container_of(path: Seq<char>) -> Option<Seq<char>> {
    match index_of(path, '{') {
        None => None,
        Some(i) => {
            let rest = path.skip(i + 1);
            match index_of(rest, '}') {
                None => None,
                Some(j) => if j == 0 {
                    None
                } else {
                    Some(rest.take(j))
                },
            }
        },
    }
}

/// Extract the container name from a field path like `spec.containers{web}`.
pub fn container_from_field_path(field_path: &str) -> (r: Option<String>)
    ensures
        opt_chars(r) == container_of(field_path@),
{
    let v = chars_of(field_path);
    let open = chars_of("{");
    let close = chars_of("}");
    proof {
        reveal_strlit("{");
        reveal_strlit("}");
        assert(open@ =~= seq!['{']);
        assert(close@ =~= seq!['}']);
    }
    let i = match find_exec(&v, &open) {
        Some(i) => i,
        None => return None,
    };
    proof {
        lemma_find_bounds(v@, open@, 0);
        assert(matches_at(v@, open@, i as int));
    }
    let n = v.len();
    let rest = slice_range(&v, i + 1, n);
    assert(rest@ =~= field_path@.skip(i + 1));
    let j = match find_exec(&rest, &close) {
        Some(j) => j,
        None => return None,
    };
    proof {
        lemma_find_bounds(rest@, close@, 0);
        assert(matches_at(rest@, close@, j as int));
    }
    if j == 0 {
        return None;
    }
    let name = slice_range(&rest, 0, j);
    assert(name@ =~= rest@.take(j as int));
    Some(string_of(&name))
}

/// The lower-case form of `s` (`str::to_lowercase`).
pub uninterp spec fn lowercase(s: Seq<char>) -> Seq<char>;

/// Whether every character of `s` is ASCII.
pub open spec fn ascii_text(s: Seq<char>) -> bool {
    forall|i: int| 0 <= i < s.len() ==> (#[trigger] s[i] as u32) < 128
}

/// `c` with an ASCII upper-case letter mapped to its lower-case letter.
pub open spec fn ascii_lower_char(c: char) -> char {
    if 'A' <= c && c <= 'Z' {
        ((c as u32) + 32) as char
    } else {
        c
    }
}

/// `c` with an ASCII lower-case letter mapped to its upper-case letter.
pub open spec fn ascii_upper_char(c: char) -> char {
    if 'a' <= c && c <= 'z' {
        ((c as u32) - 32) as char
    } else {
        c
    }
}

/// `s` with its ASCII letters lower-cased (`str::to_ascii_lowercase`).
pub open spec fn ascii_lower(s: Seq<char>) -> Seq<char> {
    s.map_values(|c: char| ascii_lower_char(c))
}

/// `s` with its ASCII letters upper-cased (`str::to_ascii_uppercase`).
pub open spec fn ascii_upper(s: Seq<char>) -> Seq<char> {
    s.map_values(|c: char| ascii_upper_char(c))
}

/// `str::to_lowercase`. On ASCII text the Unicode lower-case mapping is the
/// ASCII one (`A`..`Z` to `a`..`z`, all else kept), which the contract
/// states; on other text the result is only named.
#[verifier::external_body]
pub(crate) fn to_lower(s: &str) -> (r: String)
    ensures
        r@ == lowercase(s@),
        ascii_text(s@) ==> r@ == ascii_lower(s@),
{
    s.to_lowercase()
}

/// The error words a log line is searched for, in lower case.
pub open spec fn mentions_error(l: Seq<char>) -> bool {
    contains(l, "error"@) || contains(l, "exception"@) || contains(l, "fatal"@) || contains(
        l,
        "unreachable"@,
    ) || contains(l, "connection failed"@) || contains(l, "db connection"@)
}

/// A lower-case text that mentions any of the error words (`error`,
/// `exception`, `fatal`, `unreachable`, `connection failed`, `db connection`)
/// reads as an error; so does any log line whose lower-case form does.
pub proof fn error_words_flag_lines(l: Seq<char>, line: Seq<char>)
    ensures
        contains(l, "error"@) ==> mentions_error(l),
        contains(l, "exception"@) ==> mentions_error(l),
        contains(l, "fatal"@) ==> mentions_error(l),
        contains(l, "unreachable"@) ==> mentions_error(l),
        contains(l, "connection failed"@) ==> mentions_error(l),
        contains(l, "db connection"@) ==> mentions_error(l),
        contains(lowercase(line), "connection failed"@) ==> error_line(line),
        contains(lowercase(line), "error"@) ==> error_line(line),
        contains(lowercase(line), "exception"@) ==> error_line(line),
        contains(lowercase(line), "fatal"@) ==> error_line(line),
        contains(lowercase(line), "unreachable"@) ==> error_line(line),
        contains(lowercase(line), "db connection"@) ==> error_line(line),
{
}

/// Whether a log line reads as an error: its lower-case form mentions an
/// error, exception, fatality, unreachability or a failed connection.
pub open spec fn error_line(line: Seq<char>) -> bool {
    mentions_error(lowercase(line))
}

/// Whether a log line looks like an error (case-insensitive). On ASCII text
/// the lower-case form is the ASCII one.
pub fn matches_error(line: &str) -> (b: bool)
    ensures
        b == error_line(line@),
        ascii_text(line@) ==> b == mentions_error(ascii_lower(line@)),
{
    let lower = to_lower(line);
    let l = chars_of(lower.as_str());
    contains_exec(&l, &chars_of("error")) || contains_exec(&l, &chars_of("exception"))
        || contains_exec(&l, &chars_of("fatal")) || contains_exec(&l, &chars_of("unreachable"))
        || contains_exec(&l, &chars_of("connection failed")) || contains_exec(
        &l,
        &chars_of("db connection"),
    )
}

/// Error matching ignores letter case on ASCII text: an ASCII line, its
/// upper-case form and its lower-case form are all ASCII, and all three have
/// the same ASCII lower-case form, so `matches_error` gives the same answer
/// on each.
pub proof fn error_matching_ignores_ascii_case(line: Seq<char>)
    requires
        ascii_text(line),
    ensures
        ascii_text(ascii_upper(line)),
        ascii_text(ascii_lower(line)),
        mentions_error(ascii_lower(ascii_upper(line))) == mentions_error(ascii_lower(line)),
        mentions_error(ascii_lower(ascii_lower(line))) == mentions_error(ascii_lower(line)),
{
    let up = ascii_upper(line);
    let low = ascii_lower(line);
    assert forall|i: int| 0 <= i < up.len() implies (#[trigger] up[i] as u32) < 128 by {
        assert((line[i] as u32) < 128);
    }
    assert forall|i: int| 0 <= i < low.len() implies (#[trigger] low[i] as u32) < 128 by {
        assert((line[i] as u32) < 128);
    }
    assert(ascii_lower(up) =~= low);
    assert(ascii_lower(low) =~= low);
}

/// A cluster event, as far as signal mapping reads it.
#[derive(Debug, Clone, PartialEq, Eq)]
pub struct KubeEventInfo {
    pub uid: Option<String>,
    pub reason: Option<String>,
    /// `Normal` or `Warning`.
    pub type_: Option<String>,
    pub message: Option<String>,
    pub count: Option<i32>,
    pub namespace: Option<String>,
    pub kind: Option<String>,
    pub name: Option<String>,
    pub field_path: Option<String>,
    /// Microseconds since the Unix epoch.
    pub last_timestamp: Option<i64>,
    pub first_timestamp: Option<i64>,
}

/// An optional string's characters, empty when absent.
pub open spec fn or_empty(o: Option<String>) -> Seq<char> {
    match o {
        Some(s) => s@,
        None => seq![],
    }
}

/// Whether a cluster event becomes a signal: it has a reason, and it is a
/// `Warning` or its reason is at least an error.
pub open spec fn surfaces(ev: KubeEventInfo) -> bool {
    ev.reason matches Some(r) && (opt_chars(ev.type_) == Some("Warning"@) || kube_severity_spec(
        r@,
    ).spec_rank() >= Severity::Error.spec_rank())
}

/// A cluster event with a hard-failure reason (`OOMKilled`, `Evicted`,
/// `NodeNotReady`, `SystemOOM`) becomes a signal whatever its type, as a
/// critical one.
pub proof fn hard_failures_always_surface(ev: KubeEventInfo)
    requires
        ev.reason matches Some(r) && (r@ == "OOMKilled"@ || r@ == "Evicted"@ || r@
            == "NodeNotReady"@ || r@ == "SystemOOM"@),
    ensures
        surfaces(ev),
        kube_severity_spec(ev.reason->0@) == Severity::Critical,
{
    crate::event::kube_reason_severities(ev.reason->0@);
}

/// The title of a workload signal.
pub open spec fn workload_title(reason: Seq<char>, kind: Seq<char>, namespace: Seq<char>, name: Seq<char>) -> Seq<
    char,
> {
    if kind.len() == 0 {
        reason + " in "@ + namespace
    } else {
        reason + ": "@ + kind + " "@ + namespace + "/"@ + name
    }
}

fn or_empty_exec(o: &Option<String>) -> (r: String)
    ensures
        r@ == or_empty(*o),
{
    match o {
        Some(s) => copy_string(s),
        None => String::new(),
    }
}

/// Map a cluster event to a workload signal with identifier `id`, observed
/// at `now` (microseconds); events that are neither warnings nor severe are
/// dropped.
pub fn workload_event(ev: &KubeEventInfo, agent_id: u128, host: &str, id: u128, now: i64) -> (e:
    Option<Event>)
    ensures
        e is Some <==> surfaces(*ev),
        e matches Some(x) ==> {
            let reason = ev.reason->0@;
            &&& x.id == id
            &&& x.occurred_at == (match ev.last_timestamp {
                Some(t) => t,
                None => match ev.first_timestamp {
                    Some(t) => t,
                    None => now,
                },
            })
            &&& x.observed_at == now
            &&& x.agent_id == agent_id
            &&& x.host@ == host@
            &&& x.severity == kube_severity_spec(reason)
            &&& x.title@ == workload_title(reason, or_empty(ev.kind), or_empty(ev.namespace), or_empty(ev.name))
            &&& x.category_hints@.len() == 2
            &&& x.category_hints@[0]@ == or_empty(ev.namespace)
            &&& x.category_hints@[1]@ == "kubernetes"@
            &&& x.payload matches Payload::KubeWorkload(p) && p.namespace@ == or_empty(ev.namespace)
                && p.object_kind@ == or_empty(ev.kind) && p.name@ == or_empty(ev.name) && p.reason@
                == reason && opt_chars(p.message) == opt_chars(ev.message) && p.count == (match ev.count {
                Some(c) => Some((if c < 0 {
                    0
                } else {
                    c
                }) as u32),
                None => None,
            }) && opt_chars(p.container) == (match ev.field_path {
                Some(f) => container_of(f@),
                None => None,
            }) && p.extra@.len() == 0
        },
{
    let reason = match &ev.reason {
        Some(r) => copy_string(r),
        None => return None,
    };
    let severity = kube_severity_for_reason(reason.as_str());
    let is_warning = match &ev.type_ {
        Some(t) => str_is(t.as_str(), "Warning"),
        None => false,
    };
    if !is_warning && severity.rank() < Severity::Error.rank() {
        return None;
    }
    let namespace = or_empty_exec(&ev.namespace);
    let object_kind = or_empty_exec(&ev.kind);
    let name = or_empty_exec(&ev.name);
    let container = match &ev.field_path {
        Some(f) => container_from_field_path(f.as_str()),
        None => None,
    };
    let count: Option<u32> = match ev.count {
        Some(c) => Some(if c < 0 {
            0
        } else {
            c as u32
        }),
        None => None,
    };
    let occurred_at = match ev.last_timestamp {
        Some(t) => t,
        None => match ev.first_timestamp {
            Some(t) => t,
            None => now,
        },
    };
    let title = if object_kind.as_str().is_empty() {
        let a = cat(reason.as_str(), " in ");
        cat(a.as_str(), namespace.as_str())
    } else {
        let a = cat(reason.as_str(), ": ");
        let b = cat(a.as_str(), object_kind.as_str());
        let c = cat(b.as_str(), " ");
        let d = cat(c.as_str(), namespace.as_str());
        let f = cat(d.as_str(), "/");
        cat(f.as_str(), name.as_str())
    };
    let message = match &ev.message {
        Some(m) => Some(copy_string(m)),
        None => None,
    };
    let mut hints: Vec<String> = Vec::new();
    hints.push(copy_string(&namespace));
    hints.push("kubernetes".to_string());
    Some(
        Event {
            id,
            occurred_at,
            observed_at: now,
            agent_id,
            host: host.to_string(),
            severity,
            title,
            category_hints: hints,
            payload: Payload::KubeWorkload(
                KubeWorkloadPayload {
                    namespace,
                    object_kind,
                    name,
                    reason,
                    message,
                    count,
                    container,
                    extra: Vec::new(),
                },
            ),
        },
    )
}

/// The count remembered for `uid` (the first entry for it).
pub open spec fn count_of(seen: Seq<(String, i32)>, uid: Seq<char>) -> Option<i32>
    decreases seen.len(),
{
    if seen.len() == 0 {
        None
    } else if seen[0].0@ == uid {
        Some(seen[0].1)
    } else {
        count_of(seen.drop_first(), uid)
    }
}

proof fn lemma_count_update(seen: Seq<(String, i32)>, i: int, e: (String, i32), k: Seq<char>)
    requires
        0 <= i < seen.len(),
        seen[i].0@ == e.0@,
        forall|j: int| 0 <= j < i ==> (#[trigger] seen[j]).0@ != e.0@,
    ensures
        count_of(seen.update(i, e), k) == (if k == e.0@ {
            Some(e.1)
        } else {
            count_of(seen, k)
        }),
    decreases i,
{
    let t = seen.update(i, e);
    if i == 0 {
        assert(t[0] == e);
        assert(t.drop_first() =~= seen.drop_first());
    } else {
        assert(t[0] == seen[0]);
        assert(t.drop_first() =~= seen.drop_first().update(i - 1, e));
        assert forall|j: int| 0 <= j < i - 1 implies (#[trigger] seen.drop_first()[j]).0@ != e.0@ by {
            assert(seen.drop_first()[j] == seen[j + 1]);
        }
        lemma_count_update(seen.drop_first(), i - 1, e, k);
    }
}

proof fn lemma_count_push(seen: Seq<(String, i32)>, e: (String, i32), k: Seq<char>)
    requires
        forall|j: int| 0 <= j < seen.len() ==> (#[trigger] seen[j]).0@ != e.0@,
    ensures
        count_of(seen.push(e), k) == (if k == e.0@ {
            Some(e.1)
        } else {
            count_of(seen, k)
        }),
    decreases seen.len(),
{
    let t = seen.push(e);
    if seen.len() == 0 {
        assert(t[0] == e);
        assert(t.drop_first() =~= Seq::<(String, i32)>::empty());
        assert(count_of(t.drop_first(), k) is None);
        assert(count_of(seen, k) is None);
    } else {
        assert(t[0] == seen[0]);
        assert(t.drop_first() =~= seen.drop_first().push(e));
        assert forall|j: int| 0 <= j < seen.drop_first().len() implies (
        #[trigger] seen.drop_first()[j]).0@ != e.0@ by {
            assert(seen.drop_first()[j] == seen[j + 1]);
        }
        lemma_count_push(seen.drop_first(), e, k);
        assert(seen[0].0@ != e.0@);
    }
}

/// The title of a log-error signal for a line of a pod's log.
pub open spec fn log_error_title(namespace: Seq<char>, pod: Seq<char>, line: Seq<char>) -> Seq<char> {
    "LogError in Pod "@ + namespace + "/"@ + pod + ": "@ + line
}

/// The signal for an error `line` in the log of pod `pod` in `namespace`,
/// with identifier `id`, observed at `now` (microseconds).
pub fn log_error_event(
    namespace: &str,
    pod: &str,
    line: &str,
    agent_id: u128,
    host: &str,
    id: u128,
    now: i64,
) -> (e: Event)
    ensures
        e.id == id,
        e.occurred_at == now,
        e.observed_at == now,
        e.agent_id == agent_id,
        e.host@ == host@,
        e.severity == Severity::Error,
        e.title@ == log_error_title(namespace@, pod@, line@),
        e.category_hints@.len() == 3,
        e.category_hints@[0]@ == namespace@,
        e.category_hints@[1]@ == "kubernetes"@,
        e.category_hints@[2]@ == "log"@,
        e.payload matches Payload::KubeWorkload(p) && p.namespace@ == namespace@ && p.object_kind@
            == "Pod"@ && p.name@ == pod@ && p.reason@ == "LogError"@ && opt_chars(p.message) == Some(
            line@,
        ) && p.count == Some(1u32) && p.container is None && p.extra@.len() == 0,
{
    let a = cat("LogError in Pod ", namespace);
    let b = cat(a.as_str(), "/");
    let c = cat(b.as_str(), pod);
    let d = cat(c.as_str(), ": ");
    let title = cat(d.as_str(), line);
    let mut hints: Vec<String> = Vec::new();
    hints.push(namespace.to_string());
    hints.push("kubernetes".to_string());
    hints.push("log".to_string());
    Event {
        id,
        occurred_at: now,
        observed_at: now,
        agent_id,
        host: host.to_string(),
        severity: Severity::Error,
        title,
        category_hints: hints,
        payload: Payload::KubeWorkload(
            KubeWorkloadPayload {
                namespace: namespace.to_string(),
                object_kind: "Pod".to_string(),
                name: pod.to_string(),
                reason: "LogError".to_string(),
                message: Some(line.to_string()),
                count: Some(1),
                container: None,
                extra: Vec::new(),
            },
        ),
    }
}

/// The number of remembered log lines past which the memory starts over.
pub const LOG_MEMORY_LIMIT: usize = 5000;

/// The `(pod, line)` pairs of the log lines already reported.
#[derive(Debug, Clone, PartialEq, Eq)]
pub struct LogMemory {
    seen: Vec<(String, String)>,
}

/// The pairs held by `seen`, as text.
pub open spec fn seen_pairs(seen: Seq<(String, String)>) -> Set<(Seq<char>, Seq<char>)> {
    seen.map_values(|x: (String, String)| (x.0@, x.1@)).to_set()
}

impl LogMemory {
    /// The reported `(pod, line)` pairs.
    pub closed spec fn pairs(self) -> Set<(Seq<char>, Seq<char>)> {
        seen_pairs(self.seen@)
    }

    /// How many pairs are held.
    pub closed spec fn size(self) -> nat {
        self.seen@.len()
    }

    /// A memory of no lines.
    pub fn new() -> (m: LogMemory)
        ensures
            m.pairs() == Set::<(Seq<char>, Seq<char>)>::empty(),
            m.size() == 0,
    {
        let m = LogMemory { seen: Vec::new() };
        assert(m.pairs() =~= Set::<(Seq<char>, Seq<char>)>::empty());
        m
    }

    /// Before a scrape: forget everything once more than
    /// [`LOG_MEMORY_LIMIT`] lines are held.
    pub fn start_round(&mut self)
        ensures
            old(self).size() > LOG_MEMORY_LIMIT ==> final(self).pairs() == Set::<
                (Seq<char>, Seq<char>),
            >::empty() && final(self).size() == 0,
            old(self).size() <= LOG_MEMORY_LIMIT ==> *final(self) == *old(self),
    {
        if self.seen.len() > LOG_MEMORY_LIMIT {
            self.seen = Vec::new();
            assert(self.pairs() =~= Set::<(Seq<char>, Seq<char>)>::empty());
        }
    }

    /// Remember that `line` of `pod` was seen; `true` when it is new, that
    /// is, when it is to be reported.
    pub fn first_sighting(&mut self, pod: &str, line: &str) -> (fresh: bool)
        ensures
            fresh == !old(self).pairs().contains((pod@, line@)),
            final(self).pairs() == old(self).pairs().insert((pod@, line@)),
            final(self).size() == old(self).size() + (if fresh {
                1nat
            } else {
                0nat
            }),
    {
        let ghost key = (pod@, line@);
        let ghost view = self.seen@.map_values(|x: (String, String)| (x.0@, x.1@));
        let mut i: usize = 0;
        while i < self.seen.len()
            invariant
                i <= self.seen@.len(),
                view == self.seen@.map_values(|x: (String, String)| (x.0@, x.1@)),
                key == (pod@, line@),
                forall|j: int| 0 <= j < i ==> view[j] != key,
            decreases self.seen@.len() - i,
        {
            assert(view[i as int] == (self.seen@[i as int].0@, self.seen@[i as int].1@));
            if str_is(self.seen[i].0.as_str(), pod) && str_is(self.seen[i].1.as_str(), line) {
                proof {
                    assert(view[i as int] == key);
                    assert(seen_pairs(self.seen@).contains(key));
                    assert(seen_pairs(self.seen@).insert(key) =~= seen_pairs(self.seen@));
                }
                return false;
            }
            i = i + 1;
        }
        proof {
            assert(!view.contains(key)) by {
                if view.contains(key) {
                    let j = choose|j: int| 0 <= j < view.len() && view[j] == key;
                    assert(view[j] != key);
                }
            }
        }
        let ghost before = self.seen@;
        self.seen.push((pod.to_string(), line.to_string()));
        proof {
            let after = self.seen@.map_values(|x: (String, String)| (x.0@, x.1@));
            assert(after =~= view.push(key));
            assert(seen_pairs(self.seen@) =~= seen_pairs(before).insert(key)) by {
                assert forall|x: (Seq<char>, Seq<char>)| #[trigger] after.contains(x) == (view.contains(
                    x,
                ) || x == key) by {
                    if after.contains(x) {
                        let j = choose|j: int| 0 <= j < after.len() && after[j] == x;
                        if j < view.len() {
                            assert(view[j] == x);
                        }
                    }
                    if view.contains(x) {
                        let j = choose|j: int| 0 <= j < view.len() && view[j] == x;
                        assert(after[j] == x);
                    }
                    if x == key {
                        assert(after[view.len() as int] == key);
                    }
                }
            }
        }
        true
    }
}

/// The cluster events already seen, by uid, with the count each was last
/// seen with.
#[derive(Debug, Clone, PartialEq, Eq)]
pub struct EventMemory {
    seen: Vec<(String, i32)>,
}

impl EventMemory {
    /// The count last seen for the event with this uid.
    pub closed spec fn count_for(self, uid: Seq<char>) -> Option<i32> {
        count_of(self.seen@, uid)
    }

    /// A memory of no events.
    pub fn new() -> (m: EventMemory)
        ensures
            forall|u: Seq<char>| #[trigger] m.count_for(u) is None,
    {
        EventMemory { seen: Vec::new() }
    }

    fn put(&mut self, uid: String, count: i32)
        ensures
            forall|k: Seq<char>| #[trigger]
                final(self).count_for(k) == (if k == uid@ {
                    Some(count)
                } else {
                    old(self).count_for(k)
                }),
    {
        let mut i: usize = 0;
        while i < self.seen.len()
            invariant
                i <= self.seen@.len(),
                self.seen@ == old(self).seen@,
                forall|j: int| 0 <= j < i ==> (#[trigger] self.seen@[j]).0@ != uid@,
            decreases self.seen@.len() - i,
        {
            if self.seen[i].0 == uid {
                let ghost before = self.seen@;
                proof {
                    assert forall|k: Seq<char>| #[trigger]
                        count_of(before.update(i as int, (uid, count)), k) == (if k == uid@ {
                            Some(count)
                        } else {
                            count_of(before, k)
                        }) by {
                        lemma_count_update(before, i as int, (uid, count), k);
                    }
                }
                self.seen.set(i, (uid, count));
                return;
            }
            i = i + 1;
        }
        let ghost before = self.seen@;
        proof {
            assert forall|k: Seq<char>| #[trigger]
                count_of(before.push((uid, count)), k) == (if k == uid@ {
                    Some(count)
                } else {
                    count_of(before, k)
                }) by {
                lemma_count_push(before, (uid, count), k);
            }
        }
        self.seen.push((uid, count));
    }

    /// Remember an event from the initial listing, so it is not reported.
    pub fn remember(&mut self, ev: &KubeEventInfo)
        ensures
            remembers(*old(self), *ev, *final(self)),
    {
        if let Some(u) = &ev.uid {
            let count = match ev.count {
                Some(c) => c,
                None => 0,
            };
            self.put(copy_string(u), count);
        }
    }

    /// Whether an updated event is new, or seen before with a lower count (its
    /// aggregated count advanced); either way it is remembered with its
    /// current count. Events without a uid always count as new.
    pub fn is_new_or_changed(&mut self, ev: &KubeEventInfo) -> (b: bool)
        ensures
            b == reported(*old(self), *ev),
            remembers(*old(self), *ev, *final(self)),
    {
        let u = match &ev.uid {
            Some(u) => u,
            None => return true,
        };
        let count = match ev.count {
            Some(c) => c,
            None => 0,
        };
        let prev = self.lookup(u);
        self.put(copy_string(u), count);
        match prev {
            Some(p) => p < count,
            None => true,
        }
    }

    fn lookup(&self, uid: &String) -> (r: Option<i32>)
        ensures
            r == self.count_for(uid@),
    {
        let mut i: usize = 0;
        assert(self.seen@.skip(0) =~= self.seen@);
        while i < self.seen.len()
            invariant
                i <= self.seen@.len(),
                count_of(self.seen@, uid@) == count_of(self.seen@.skip(i as int), uid@),
            decreases self.seen@.len() - i,
        {
            assert(self.seen@.skip(i as int)[0] == self.seen@[i as int]);
            assert(self.seen@.skip(i as int).drop_first() =~= self.seen@.skip(i + 1));
            if self.seen[i].0 == *uid {
                return Some(self.seen[i].1);
            }
            i = i + 1;
        }
        None
    }
}

/// The count an event carries, 0 when it has none.
pub open spec fn event_count(ev: KubeEventInfo) -> i32 {
    match ev.count {
        Some(c) => c,
        None => 0,
    }
}

/// Whether `memory` reports `ev`: an event without a uid always; otherwise
/// when its uid was not seen before, or was seen with a lower count.
pub open spec fn reported(memory: EventMemory, ev: KubeEventInfo) -> bool {
    match ev.uid {
        None => true,
        Some(u) => match memory.count_for(u@) {
            None => true,
            Some(prev) => prev < event_count(ev),
        },
    }
}

/// Whether `after` is `before` having seen `ev`: the event's uid now maps to
/// its count, every other uid as before.
pub open spec fn remembers(before: EventMemory, ev: KubeEventInfo, after: EventMemory) -> bool {
    forall|k: Seq<char>| #[trigger]
        after.count_for(k) == (match ev.uid {
            Some(u) => if k == u@ {
                Some(event_count(ev))
            } else {
                before.count_for(k)
            },
            None => before.count_for(k),
        })
}

/// Once an event with a uid has been seen, seeing it again with the same
/// count reports nothing.
pub proof fn unchanged_events_stay_quiet(before: EventMemory, ev: KubeEventInfo, after: EventMemory)
    requires
        ev.uid is Some,
        remembers(before, ev, after),
    ensures
        !reported(after, ev),
{
    let u = ev.uid->0;
    assert(after.count_for(u@) == Some(event_count(ev)));
}

/// Once an event has been seen, a later sighting of the same uid is reported
/// exactly when its count has advanced past the remembered one: a count that
/// stays or goes down reports nothing.
pub proof fn advanced_counts_are_reported(
    before: EventMemory,
    ev: KubeEventInfo,
    after: EventMemory,
    later: KubeEventInfo,
)
    requires
        ev.uid is Some,
        later.uid is Some,
        later.uid->0@ == ev.uid->0@,
        remembers(before, ev, after),
    ensures
        reported(after, later) == (event_count(ev) < event_count(later)),
{
    let u = ev.uid->0;
    assert(after.count_for(u@) == Some(event_count(ev)));
}

/// One of a node's status conditions.
#[derive(Debug, Clone, PartialEq, Eq)]
pub struct NodeConditionInfo {
    pub type_: String,
    /// `True`, `False` or `Unknown`.
    pub status: String,
    pub message: Option<String>,
    /// Microseconds since the Unix epoch.
    pub last_transition: Option<i64>,
}

/// A node, as far as condition detection reads it.
#[derive(Debug, Clone, PartialEq, Eq)]
pub struct NodeInfo {
    pub name: Option<String>,
    pub conditions: Option<Vec<NodeConditionInfo>>,
}

/// The signal a condition raises, if it is active: `NodeNotReady` for a
/// `Ready` condition that is not `True`, the pressure's own name for a memory,
/// disk or PID pressure that is `True`.
pub open spec fn condition_signal(c: NodeConditionInfo) -> Option<Seq<char>> {
    if c.type_@ == "Ready"@ {
        if c.status@ != "True"@ {
            Some("NodeNotReady"@)
        } else {
            None
        }
    } else if (c.type_@ == "MemoryPressure"@ || c.type_@ == "DiskPressure"@ || c.type_@
        == "PIDPressure"@) && c.status@ == "True"@ {
        Some(c.type_@)
    } else {
        None
    }
}

/// An active node condition: its signal name, message and transition time.
#[derive(Debug, Clone, PartialEq, Eq)]
pub struct NodeSignal {
    pub condition: String,
    pub message: Option<String>,
    pub occurred_at: Option<i64>,
}

/// The view of a [`NodeSignal`].
pub open spec fn signal_view(g: NodeSignal) -> (Seq<char>, Option<Seq<char>>, Option<i64>) {
    (g.condition@, opt_chars(g.message), g.occurred_at)
}

/// The signals of a list of conditions, in order.
pub open spec fn signals_of(conds: Seq<NodeConditionInfo>) -> Seq<(Seq<char>, Option<Seq<char>>, Option<i64>)>
    decreases conds.len(),
{
    if conds.len() == 0 {
        seq![]
    } else {
        let rest = signals_of(conds.drop_last());
        let c = conds.last();
        match condition_signal(c) {
            Some(s) => rest.push((s, opt_chars(c.message), c.last_transition)),
            None => rest,
        }
    }
}

/// The signals a node raises, in condition order.
pub open spec fn node_signal_views(node: NodeInfo) -> Seq<(Seq<char>, Option<Seq<char>>, Option<i64>)> {
    match node.conditions {
        Some(c) => signals_of(c@),
        None => seq![],
    }
}

/// The name a node goes by: its own, else the agent's host name.
pub open spec fn node_name_of(node: NodeInfo, host: Seq<char>) -> Seq<char> {
    match node.name {
        Some(n) => n@,
        None => host,
    }
}

fn condition_signal_exec(c: &NodeConditionInfo) -> (r: Option<String>)
    ensures
        opt_chars(r) == condition_signal(*c),
{
    if str_is(c.type_.as_str(), "Ready") {
        if !str_is(c.status.as_str(), "True") {
            Some("NodeNotReady".to_string())
        } else {
            None
        }
    } else if (str_is(c.type_.as_str(), "MemoryPressure") || str_is(c.type_.as_str(), "DiskPressure")
        || str_is(c.type_.as_str(), "PIDPressure")) && str_is(c.status.as_str(), "True") {
        Some(copy_string(&c.type_))
    } else {
        None
    }
}

/// The signals of a node's active conditions, one per condition.
pub fn node_signals(node: &NodeInfo) -> (sigs: Vec<NodeSignal>)
    ensures
        sigs@.map_values(|g: NodeSignal| signal_view(g)) == node_signal_views(*node),
{
    let mut sigs: Vec<NodeSignal> = Vec::new();
    let conds = match &node.conditions {
        Some(c) => c,
        None => return sigs,
    };
    let mut i: usize = 0;
    while i < conds.len()
        invariant
            i <= conds@.len(),
            sigs@.map_values(|g: NodeSignal| signal_view(g)) == signals_of(conds@.take(i as int)),
        decreases conds@.len() - i,
    {
        let ghost before = sigs@;
        assert(conds@.take(i + 1).drop_last() =~= conds@.take(i as int));
        assert(conds@.take(i + 1).last() == conds@[i as int]);
        if let Some(cond) = condition_signal_exec(&conds[i]) {
            let ghost cv = cond@;
            let message = match &conds[i].message {
                Some(m) => Some(copy_string(m)),
                None => None,
            };
            sigs.push(NodeSignal { condition: cond, message, occurred_at: conds[i].last_transition });
            assert(sigs@.map_values(|g: NodeSignal| signal_view(g)) =~= before.map_values(
                |g: NodeSignal| signal_view(g),
            ).push((cv, opt_chars(conds@[i as int].message), conds@[i as int].last_transition)));
        }
        i = i + 1;
    }
    assert(conds@.take(i as int) =~= conds@);
    sigs
}

/// The key under which a node's active condition is remembered.
pub open spec fn node_key(node: Seq<char>, cond: Seq<char>) -> Seq<char> {
    node + "/"@ + cond
}

/// Whether `k` is the key of one of the signals `sigs` of node `name`.
pub open spec fn is_current(name: Seq<char>, sigs: Seq<(Seq<char>, Option<Seq<char>>, Option<i64>)>, k: Seq<char>) -> bool {
    exists|i: int| 0 <= i < sigs.len() && node_key(name, (#[trigger] sigs[i]).0) == k
}

/// The active-condition keys a node watcher remembers.
#[derive(Debug, Clone, PartialEq, Eq)]
pub struct NodeWatch {
    active: Vec<String>,
}

impl NodeWatch {
    /// Whether the condition with key `k` is remembered as active.
    pub closed spec fn is_active(self, k: Seq<char>) -> bool {
        names_has(self.active@, k)
    }

    /// A watcher remembering nothing.
    pub fn new() -> (w: NodeWatch)
        ensures
            forall|k: Seq<char>| !(#[trigger] w.is_active(k)),
    {
        NodeWatch { active: Vec::new() }
    }
}

/// The signals among `sigs` that are fresh: their key was not remembered
/// before, and no earlier signal has the same key.
pub open spec fn fresh_signals(
    name: Seq<char>,
    sigs: Seq<(Seq<char>, Option<Seq<char>>, Option<i64>)>,
    before: NodeWatch,
) -> Seq<(Seq<char>, Option<Seq<char>>, Option<i64>)>
    decreases sigs.len(),
{
    if sigs.len() == 0 {
        seq![]
    } else {
        let rest = fresh_signals(name, sigs.drop_last(), before);
        let k = node_key(name, sigs.last().0);
        if !before.is_active(k) && !is_current(name, sigs.drop_last(), k) {
            rest.push(sigs.last())
        } else {
            rest
        }
    }
}

/// What reconciling a node does: the remembered keys become this node's
/// current condition keys plus every other node's keys; the fresh signals
/// are returned only when `emit` is set.
pub open spec fn reconciled(
    before: NodeWatch,
    node: NodeInfo,
    host: Seq<char>,
    emit: bool,
    after: NodeWatch,
    fresh: Seq<(Seq<char>, Option<Seq<char>>, Option<i64>)>,
) -> bool {
    let name = node_name_of(node, host);
    let sigs = node_signal_views(node);
    &&& forall|k: Seq<char>| #[trigger]
        after.is_active(k) == ((before.is_active(k) && !starts_with(k, name + "/"@)) || is_current(
            name,
            sigs,
            k,
        ))
    &&& fresh == (if emit {
        fresh_signals(name, sigs, before)
    } else {
        seq![]
    })
}

proof fn lemma_key_prefix(name: Seq<char>, cond: Seq<char>)
    ensures
        starts_with(node_key(name, cond), name + "/"@),
{
    assert(node_key(name, cond).take((name + "/"@).len() as int) =~= name + "/"@);
}

fn key_exec(name: &str, cond: &str) -> (k: String)
    ensures
        k@ == node_key(name@, cond@),
{
    let a = cat(name, "/");
    cat(a.as_str(), cond)
}

impl NodeWatch {
    /// Bring the remembered conditions of `node` up to date and return the
    /// signals of the conditions that just became active (only when `emit`;
    /// seeding from the initial listing passes `false`). Cleared conditions
    /// are forgotten, so they fire again when they return.
    pub fn reconcile(&mut self, node: &NodeInfo, host: &str, emit: bool) -> (fresh: Vec<NodeSignal>)
        ensures
            reconciled(
                *old(self),
                *node,
                host@,
                emit,
                *final(self),
                fresh@.map_values(|g: NodeSignal| signal_view(g)),
            ),
    {
        let ghost before = *self;
        let name: String = match &node.name {
            Some(n) => copy_string(n),
            None => host.to_string(),
        };
        let sigs = node_signals(node);
        let ghost sv = sigs@.map_values(|g: NodeSignal| signal_view(g));
        let prefix = cat(name.as_str(), "/");
        let pv = chars_of(prefix.as_str());
        // The keys of the current signals.
        let mut keys: Vec<String> = Vec::new();
        let mut j: usize = 0;
        while j < sigs.len()
            invariant
                j <= sigs@.len(),
                sv == sigs@.map_values(|g: NodeSignal| signal_view(g)),
                keys@.len() == j,
                forall|m: int| 0 <= m < j ==> (#[trigger] keys@[m])@ == node_key(name@, sv[m].0),
            decreases sigs@.len() - j,
        {
            keys.push(key_exec(name.as_str(), sigs[j].condition.as_str()));
            j = j + 1;
        }
        assert forall|k: Seq<char>| #[trigger] names_has(keys@, k) == is_current(name@, sv, k) by {
            if names_has(keys@, k) {
                let m = choose|m: int| 0 <= m < keys@.len() && (#[trigger] keys@[m])@ == k;
                assert(node_key(name@, sv[m].0) == k);
            }
            if is_current(name@, sv, k) {
                let m = choose|m: int| 0 <= m < sv.len() && node_key(name@, (#[trigger] sv[m]).0) == k;
                assert(keys@[m]@ == k);
            }
        }
        // Keep other nodes' keys, and this node's keys that are still current.
        let mut kept: Vec<String> = Vec::new();
        let mut i: usize = 0;
        while i < self.active.len()
            invariant
                i <= self.active@.len(),
                *self == before,
                pv@ == name@ + "/"@,
                forall|k: Seq<char>| #[trigger] names_has(keys@, k) == is_current(name@, sv, k),
                forall|k: Seq<char>| #[trigger]
                    names_has(kept@, k) == (names_has(self.active@.take(i as int), k) && (!starts_with(
                        k,
                        name@ + "/"@,
                    ) || is_current(name@, sv, k))),
            decreases self.active@.len() - i,
        {
            let ghost k0 = kept@;
            proof {
                assert(self.active@.take(i + 1) =~= self.active@.take(i as int).push(self.active@[i as int]));
                assert forall|k: Seq<char>| #[trigger] names_has(self.active@.take(i + 1), k) == (names_has(
                    self.active@.take(i as int),
                    k,
                ) || self.active@[i as int]@ == k) by {
                    crate::failed_unit::lemma_names_push(self.active@.take(i as int), self.active@[i as int], k);
                }
            }
            let kv = chars_of(self.active[i].as_str());
            let keep = !starts_with_exec(&kv, &pv) || names_contain_str(&keys, &self.active[i]);
            if keep {
                kept.push(copy_string(&self.active[i]));
                proof {
                    assert forall|k: Seq<char>| #[trigger] names_has(kept@, k) == (names_has(k0, k)
                        || self.active@[i as int]@ == k) by {
                        crate::failed_unit::lemma_names_push(k0, kept@.last(), k);
                        assert(kept@ == k0.push(kept@.last()));
                    }
                }
            }
            i = i + 1;
        }
        assert(self.active@.take(i as int) =~= self.active@);
        // Add the current keys, reporting the ones newly remembered.
        let mut fresh: Vec<NodeSignal> = Vec::new();
        let mut m: usize = 0;
        assert(sv.take(0) =~= Seq::<(Seq<char>, Option<Seq<char>>, Option<i64>)>::empty());
        while m < sigs.len()
            invariant
                m <= sigs@.len(),
                sv == sigs@.map_values(|g: NodeSignal| signal_view(g)),
                keys@.len() == sigs@.len(),
                forall|x: int| 0 <= x < keys@.len() ==> (#[trigger] keys@[x])@ == node_key(name@, sv[x].0),
                forall|k: Seq<char>| #[trigger]
                    names_has(kept@, k) == ((before.is_active(k) && (!starts_with(k, name@ + "/"@)
                        || is_current(name@, sv, k))) || is_current(name@, sv.take(m as int), k)),
                fresh@.map_values(|g: NodeSignal| signal_view(g)) == (if emit {
                    fresh_signals(name@, sv.take(m as int), before)
                } else {
                    seq![]
                }),
            decreases sigs@.len() - m,
        {
            let ghost k = node_key(name@, sv[m as int].0);
            let ghost t = sv.take(m as int);
            proof {
                assert(sv.take(m + 1) =~= t.push(sv[m as int]));
                assert(sv.take(m + 1).drop_last() =~= t);
                lemma_key_prefix(name@, sv[m as int].0);
                assert(is_current(name@, sv, k)) by {
                    assert(node_key(name@, sv[m as int].0) == k);
                }
                assert forall|x: Seq<char>| #[trigger] is_current(name@, sv.take(m + 1), x) == (is_current(
                    name@,
                    t,
                    x,
                ) || k == x) by {
                    lemma_current_push(name@, t, sv[m as int], x);
                }
            }
            let present = names_contain_str(&kept, &keys[m]);
            assert(keys@[m as int]@ == k);
            if !present {
                let ghost k0 = kept@;
                kept.push(copy_string(&keys[m]));
                proof {
                    assert forall|x: Seq<char>| #[trigger] names_has(kept@, x) == (names_has(k0, x)
                        || k == x) by {
                        crate::failed_unit::lemma_names_push(k0, kept@.last(), x);
                        assert(kept@ == k0.push(kept@.last()));
                    }
                }
                if emit {
                    let ghost f0 = fresh@;
                    fresh.push(copy_signal(&sigs[m]));
                    assert(fresh@.map_values(|g: NodeSignal| signal_view(g)) =~= f0.map_values(
                        |g: NodeSignal| signal_view(g),
                    ).push(sv[m as int]));
                }
            }
            m = m + 1;
        }
        assert(sv.take(m as int) =~= sv);
        self.active = kept;
        fresh
    }
}

proof fn lemma_current_push(
    name: Seq<char>,
    sigs: Seq<(Seq<char>, Option<Seq<char>>, Option<i64>)>,
    x: (Seq<char>, Option<Seq<char>>, Option<i64>),
    k: Seq<char>,
)
    ensures
        is_current(name, sigs.push(x), k) == (is_current(name, sigs, k) || node_key(name, x.0) == k),
{
    let t = sigs.push(x);
    if is_current(name, sigs, k) {
        let i = choose|i: int| 0 <= i < sigs.len() && node_key(name, (#[trigger] sigs[i]).0) == k;
        assert(t[i] == sigs[i]);
    }
    if node_key(name, x.0) == k {
        assert(t[sigs.len() as int] == x);
    }
    if is_current(name, t, k) {
        let i = choose|i: int| 0 <= i < t.len() && node_key(name, (#[trigger] t[i]).0) == k;
        if i < sigs.len() {
            assert(t[i] == sigs[i]);
        }
    }
}

fn copy_signal(g: &NodeSignal) -> (r: NodeSignal)
    ensures
        signal_view(r) == signal_view(*g),
{
    NodeSignal {
        condition: copy_string(&g.condition),
        message: match &g.message {
            Some(m) => Some(copy_string(m)),
            None => None,
        },
        occurred_at: g.occurred_at,
    }
}

fn names_contain_str(names: &Vec<String>, name: &String) -> (b: bool)
    ensures
        b == names_has(names@, name@),
{
    let mut i: usize = 0;
    while i < names.len()
        invariant
            i <= names@.len(),
            forall|k: int| 0 <= k < i ==> (#[trigger] names@[k])@ != name@,
        decreases names@.len() - i,
    {
        if names[i] == *name {
            return true;
        }
        i = i + 1;
    }
    false
}

/// The event for an active node condition on node `node_name`, with
/// identifier `id`, observed at `now` (microseconds).
pub fn signal_event(sig: &NodeSignal, node_name: &str, agent_id: u128, host: &str, id: u128, now: i64) -> (e:
    Event)
    ensures
        e.id == id,
        e.occurred_at == (match sig.occurred_at {
            Some(t) => t,
            None => now,
        }),
        e.observed_at == now,
        e.agent_id == agent_id,
        e.host@ == host@,
        e.severity == kube_severity_spec(sig.condition@),
        e.title@ == sig.condition@ + " on node "@ + node_name@,
        e.category_hints@.len() == 3,
        e.category_hints@[0]@ == node_name@,
        e.category_hints@[1]@ == "kubernetes"@,
        e.category_hints@[2]@ == "node"@,
        e.payload matches Payload::KubeNode(p) && p.node@ == node_name@ && p.condition@
            == sig.condition@ && opt_chars(p.message) == opt_chars(sig.message) && p.extra@.len() == 0,
{
    let occurred_at = match sig.occurred_at {
        Some(t) => t,
        None => now,
    };
    let a = cat(sig.condition.as_str(), " on node ");
    let title = cat(a.as_str(), node_name);
    let mut hints: Vec<String> = Vec::new();
    hints.push(node_name.to_string());
    hints.push("kubernetes".to_string());
    hints.push("node".to_string());
    Event {
        id,
        occurred_at,
        observed_at: now,
        agent_id,
        host: host.to_string(),
        severity: kube_severity_for_reason(sig.condition.as_str()),
        title,
        category_hints: hints,
        payload: Payload::KubeNode(
            KubeNodePayload {
                node: node_name.to_string(),
                condition: copy_string(&sig.condition),
                message: match &sig.message {
                    Some(m) => Some(copy_string(m)),
                    None => None,
                },
                extra: Vec::new(),
            },
        ),
    }
}

proof fn lemma_fresh_were_inactive(
    name: Seq<char>,
    sigs: Seq<(Seq<char>, Option<Seq<char>>, Option<i64>)>,
    before: NodeWatch,
)
    ensures
        forall|i: int|
            0 <= i < fresh_signals(name, sigs, before).len() ==> !before.is_active(
                node_key(name, (#[trigger] fresh_signals(name, sigs, before)[i]).0),
            ),
        forall|i: int, j: int|
            0 <= i < j < fresh_signals(name, sigs, before).len() ==> node_key(
                name,
                fresh_signals(name, sigs, before)[i].0,
            ) != node_key(name, fresh_signals(name, sigs, before)[j].0),
        forall|i: int|
            0 <= i < fresh_signals(name, sigs, before).len() ==> is_current(
                name,
                sigs,
                node_key(name, (#[trigger] fresh_signals(name, sigs, before)[i]).0),
            ),
    decreases sigs.len(),
{
    if sigs.len() > 0 {
        let init = sigs.drop_last();
        lemma_fresh_were_inactive(name, init, before);
        let rest = fresh_signals(name, init, before);
        let f = fresh_signals(name, sigs, before);
        assert forall|i: int| 0 <= i < rest.len() implies is_current(
            name,
            sigs,
            node_key(name, (#[trigger] rest[i]).0),
        ) by {
            let k = node_key(name, rest[i].0);
            let w = choose|w: int| 0 <= w < init.len() && node_key(name, (#[trigger] init[w]).0) == k;
            assert(sigs[w] == init[w]);
        }
        if f.len() > rest.len() {
            assert(f == rest.push(sigs.last()));
            assert(node_key(name, sigs[sigs.len() - 1].0) == node_key(name, sigs.last().0));
            assert forall|i: int| 0 <= i < f.len() implies is_current(
                name,
                sigs,
                node_key(name, (#[trigger] f[i]).0),
            ) by {
                if i < rest.len() {
                    assert(f[i] == rest[i]);
                }
            }
            assert forall|i: int, j: int|
                0 <= i < j < f.len() implies node_key(name, f[i].0) != node_key(name, f[j].0) by {
                if j == rest.len() {
                    assert(f[i] == rest[i]);
                    assert(is_current(name, init, node_key(name, rest[i].0)));
                }
            }
        }
    }
}

/// A condition that stays active raises no new signal: every signal reported
/// is for a condition not remembered as active before, and each condition is
/// reported at most once.
pub proof fn signals_once_per_transition(
    before: NodeWatch,
    node: NodeInfo,
    host: Seq<char>,
    emit: bool,
    after: NodeWatch,
    fresh: Seq<(Seq<char>, Option<Seq<char>>, Option<i64>)>,
)
    requires
        reconciled(before, node, host, emit, after, fresh),
    ensures
        forall|i: int|
            0 <= i < fresh.len() ==> !before.is_active(
                node_key(node_name_of(node, host), (#[trigger] fresh[i]).0),
            ),
        forall|i: int, j: int|
            0 <= i < j < fresh.len() ==> node_key(node_name_of(node, host), fresh[i].0) != node_key(
                node_name_of(node, host),
                fresh[j].0,
            ),
{
    lemma_fresh_were_inactive(node_name_of(node, host), node_signal_views(node), before);
}

/// Seeding from the initial listing reports nothing, yet remembers every
/// active condition, so a condition already active at startup never raises.
pub proof fn seeding_is_silent(
    before: NodeWatch,
    node: NodeInfo,
    host: Seq<char>,
    after: NodeWatch,
    fresh: Seq<(Seq<char>, Option<Seq<char>>, Option<i64>)>,
    k: Seq<char>,
)
    requires
        reconciled(before, node, host, false, after, fresh),
        is_current(node_name_of(node, host), node_signal_views(node), k),
    ensures
        fresh.len() == 0,
        after.is_active(k),
{
}

/// A condition of this node that has cleared is forgotten, so it raises again
/// when it returns; other nodes' conditions are left as they were.
pub proof fn cleared_conditions_rearm(
    before: NodeWatch,
    node: NodeInfo,
    host: Seq<char>,
    emit: bool,
    after: NodeWatch,
    fresh: Seq<(Seq<char>, Option<Seq<char>>, Option<i64>)>,
    k: Seq<char>,
)
    requires
        reconciled(before, node, host, emit, after, fresh),
        !is_current(node_name_of(node, host), node_signal_views(node), k),
    ensures
        starts_with(k, node_name_of(node, host) + "/"@) ==> !after.is_active(k),
        !starts_with(k, node_name_of(node, host) + "/"@) ==> after.is_active(k) == before.is_active(
            k,
        ),
{
}

/// The environment variables the cluster components read (unset ones as
/// `None`).
#[derive(Debug, Clone, PartialEq, Eq)]
pub struct KubeEnv {
    pub nats_url: Option<String>,
    pub controller_id: Option<String>,
    pub cluster: Option<String>,
    pub hostname: Option<String>,
    pub namespace: Option<String>,
}

/// The cluster components' configuration.
#[derive(Debug, Clone, PartialEq, Eq)]
pub struct KubeConfig {
    pub nats_url: String,
    pub agent_id: u128,
    pub host: String,
    pub namespace: Option<String>,
}

/// A value that is set and not empty.
pub open spec fn given(v: Option<String>) -> Option<Seq<char>> {
    match v {
        Some(s) => if s@.len() == 0 {
            None
        } else {
            Some(s@)
        },
        None => None,
    }
}

fn given_exec(v: &Option<String>) -> (r: Option<String>)
    ensures
        opt_chars(r) == given(*v),
{
    match v {
        Some(s) => if s.as_str().is_empty() {
            None
        } else {
            Some(copy_string(s))
        },
        None => None,
    }
}

impl KubeConfig {
    /// Resolve the configuration from the environment; `fresh_id` is the
    /// identity used when none is configured. A configured identity that is
    /// not a UUID is an error.
    pub fn resolve(env: &KubeEnv, fresh_id: u128) -> (r: Result<KubeConfig, String>)
        ensures
            match given(env.controller_id) {
                Some(raw) => match crate::agent::uuid_parsed(raw) {
                    None => r is Err,
                    Some(id) => r matches Ok(c) && c.agent_id == id,
                },
                None => r matches Ok(c) && c.agent_id == fresh_id,
            },
            r matches Ok(c) ==> {
                &&& c.nats_url@ == (match env.nats_url {
                    Some(u) => u@,
                    None => "nats://127.0.0.1:4222"@,
                })
                &&& c.host@ == (match given(env.cluster) {
                    Some(h) => h,
                    None => match given(env.hostname) {
                        Some(h) => h,
                        None => "kubernetes"@,
                    },
                })
                &&& opt_chars(c.namespace) == given(env.namespace)
            },
    {
        let nats_url = match &env.nats_url {
            Some(u) => copy_string(u),
            None => "nats://127.0.0.1:4222".to_string(),
        };
        let agent_id = match given_exec(&env.controller_id) {
            Some(raw) => match crate::agent::parse_uuid(raw.as_str()) {
                Some(id) => id,
                None => return Err("RAVN_CONTROLLER_ID must be a UUID".to_string()),
            },
            None => fresh_id,
        };
        let host = match given_exec(&env.cluster) {
            Some(h) => h,
            None => match given_exec(&env.hostname) {
                Some(h) => h,
                None => "kubernetes".to_string(),
            },
        };
        Ok(KubeConfig { nats_url, agent_id, host, namespace: given_exec(&env.namespace) })
    }
}

} // verus!
