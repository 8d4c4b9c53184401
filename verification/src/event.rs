//! The normalized detection event, its severity and source, and the
//! source-specific payloads (one per detection tap).

use vstd::prelude::*;

use crate::text::{chars_of, eq_lit};

verus! {

/// Severity of an event, ordered least-to-most urgent.
#[derive(Debug, Clone, Copy, PartialEq, Eq, Structural, PartialOrd, Ord, Hash)]
pub enum Severity {
    Info,
    Notice,
    Warning,
    Error,
    Critical,
}

impl Severity {
    /// Position in the urgency order: `Info` is 0, `Critical` is 4.
    pub open spec fn spec_rank(self) -> nat {
        match self {
            Severity::Info => 0,
            Severity::Notice => 1,
            Severity::Warning => 2,
            Severity::Error => 3,
            Severity::Critical => 4,
        }
    }

    /// The variant name, as `{:?}` prints it.
    pub open spec fn spec_name(self) -> Seq<char> {
        match self {
            Severity::Info => "Info"@,
            Severity::Notice => "Notice"@,
            Severity::Warning => "Warning"@,
            Severity::Error => "Error"@,
            Severity::Critical => "Critical"@,
        }
    }

    /// The variant name, as `{:?}` prints it.
    pub fn name(&self) -> (s: &'static str)
        ensures
            s@ == self.spec_name(),
    {
        match self {
            Severity::Info => "Info",
            Severity::Notice => "Notice",
            Severity::Warning => "Warning",
            Severity::Error => "Error",
            Severity::Critical => "Critical",
        }
    }

    /// Position in the urgency order: `Info` is 0, `Critical` is 4.
    pub fn rank(&self) -> (r: u8)
        ensures
            r as nat == self.spec_rank(),
    {
        match self {
            Severity::Info => 0,
            Severity::Notice => 1,
            Severity::Warning => 2,
            Severity::Error => 3,
            Severity::Critical => 4,
        }
    }

    /// Whether `self` is at least as urgent as `other`.
    pub fn at_least(&self, other: &Severity) -> (b: bool)
        ensures
            b == (self.spec_rank() >= other.spec_rank()),
    {
        self.rank() >= other.rank()
    }

    /// The more urgent of two severities.
    pub fn max_of(a: Severity, b: Severity) -> (m: Severity)
        ensures
            m == a || m == b,
            m.spec_rank() >= a.spec_rank(),
            m.spec_rank() >= b.spec_rank(),
    {
        if a.rank() >= b.rank() {
            a
        } else {
            b
        }
    }
}

/// Severities are strictly ordered `Info < Notice < Warning < Error < Critical`,
/// and the order is total: two severities of the same rank are the same.
pub proof fn severity_order_is_strict_and_total(a: Severity, b: Severity)
    ensures
        Severity::Info.spec_rank() < Severity::Notice.spec_rank(),
        Severity::Notice.spec_rank() < Severity::Warning.spec_rank(),
        Severity::Warning.spec_rank() < Severity::Error.spec_rank(),
        Severity::Error.spec_rank() < Severity::Critical.spec_rank(),
        a.spec_rank() == b.spec_rank() ==> a == b,
{
}

/// Which detection tap produced an event.
#[derive(Debug, Clone, Copy, PartialEq, Eq, Structural, Hash)]
pub enum Source {
    Journald,
    FailedUnit,
    ConfigDrift,
    Auth,
    Update,
    KubeWorkload,
    KubeNode,
    RavnInternal,
}

impl Source {
    /// The variant name, as `{:?}` prints it.
    pub open spec fn spec_name(self) -> Seq<char> {
        match self {
            Source::Journald => "Journald"@,
            Source::FailedUnit => "FailedUnit"@,
            Source::ConfigDrift => "ConfigDrift"@,
            Source::Auth => "Auth"@,
            Source::Update => "Update"@,
            Source::KubeWorkload => "KubeWorkload"@,
            Source::KubeNode => "KubeNode"@,
            Source::RavnInternal => "RavnInternal"@,
        }
    }

    /// The variant name, as `{:?}` prints it.
    pub fn name(&self) -> (s: &'static str)
        ensures
            s@ == self.spec_name(),
    {
        match self {
            Source::Journald => "Journald",
            Source::FailedUnit => "FailedUnit",
            Source::ConfigDrift => "ConfigDrift",
            Source::Auth => "Auth",
            Source::Update => "Update",
            Source::KubeWorkload => "KubeWorkload",
            Source::KubeNode => "KubeNode",
            Source::RavnInternal => "RavnInternal",
        }
    }
}

/// A structured entry from the systemd journal.
#[derive(Debug, Clone, PartialEq, Eq)]
pub struct JournaldPayload {
    pub unit: Option<String>,
    pub priority: Option<u8>,
    pub message: String,
    /// Additional fields not modelled explicitly, as (name, JSON text) pairs.
    pub extra: Vec<(String, String)>,
}

/// A systemd unit that entered a failed state.
#[derive(Debug, Clone, PartialEq, Eq)]
pub struct FailedUnitPayload {
    pub unit: String,
    pub result: String,
    pub recent_log: Vec<String>,
    /// Additional fields not modelled explicitly, as (name, JSON text) pairs.
    pub extra: Vec<(String, String)>,
}

/// A watched config path whose contents changed.
#[derive(Debug, Clone, PartialEq, Eq)]
pub struct ConfigDriftPayload {
    pub path: String,
    pub old_hash: Option<String>,
    pub new_hash: String,
    pub diff: Option<String>,
    /// Additional fields not modelled explicitly, as (name, JSON text) pairs.
    pub extra: Vec<(String, String)>,
}

/// An authentication / SSH / audit event.
#[derive(Debug, Clone, PartialEq, Eq)]
pub struct AuthPayload {
    pub action: String,
    pub user: Option<String>,
    pub remote_addr: Option<String>,
    pub succeeded: bool,
    /// Additional fields not modelled explicitly, as (name, JSON text) pairs.
    pub extra: Vec<(String, String)>,
}

/// A system update / NixOS-generation change.
#[derive(Debug, Clone, PartialEq, Eq)]
pub struct UpdatePayload {
    pub mechanism: String,
    pub from: Option<String>,
    pub to: Option<String>,
    pub changes: Vec<String>,
    /// Additional fields not modelled explicitly, as (name, JSON text) pairs.
    pub extra: Vec<(String, String)>,
}

/// A Kubernetes workload signal.
#[derive(Debug, Clone, PartialEq, Eq)]
pub struct KubeWorkloadPayload {
    pub namespace: String,
    pub object_kind: String,
    pub name: String,
    pub reason: String,
    pub message: Option<String>,
    pub count: Option<u32>,
    pub container: Option<String>,
    /// Additional fields not modelled explicitly, as (name, JSON text) pairs.
    pub extra: Vec<(String, String)>,
}

/// A Kubernetes node-level signal.
#[derive(Debug, Clone, PartialEq, Eq)]
pub struct KubeNodePayload {
    pub node: String,
    pub condition: String,
    pub message: Option<String>,
    /// Additional fields not modelled explicitly, as (name, JSON text) pairs.
    pub extra: Vec<(String, String)>,
}

/// Structured, source-specific event data.
#[derive(Debug, Clone, PartialEq, Eq)]
pub enum Payload {
    Journald(JournaldPayload),
    FailedUnit(FailedUnitPayload),
    ConfigDrift(ConfigDriftPayload),
    Auth(AuthPayload),
    Update(UpdatePayload),
    KubeWorkload(KubeWorkloadPayload),
    KubeNode(KubeNodePayload),
}

impl Payload {
    pub open spec fn spec_source(self) -> Source {
        match self {
            Payload::Journald(_) => Source::Journald,
            Payload::FailedUnit(_) => Source::FailedUnit,
            Payload::ConfigDrift(_) => Source::ConfigDrift,
            Payload::Auth(_) => Source::Auth,
            Payload::Update(_) => Source::Update,
            Payload::KubeWorkload(_) => Source::KubeWorkload,
            Payload::KubeNode(_) => Source::KubeNode,
        }
    }

    /// The detection source this payload belongs to.
    pub fn source(&self) -> (s: Source)
        ensures
            s == self.spec_source(),
    {
        match self {
            Payload::Journald(_) => Source::Journald,
            Payload::FailedUnit(_) => Source::FailedUnit,
            Payload::ConfigDrift(_) => Source::ConfigDrift,
            Payload::Auth(_) => Source::Auth,
            Payload::Update(_) => Source::Update,
            Payload::KubeWorkload(_) => Source::KubeWorkload,
            Payload::KubeNode(_) => Source::KubeNode,
        }
    }
}

/// A normalized detection event. Identifiers are the UUIDs' 128-bit values and
/// timestamps are microseconds since the Unix epoch (UTC).
#[derive(Debug, Clone, PartialEq, Eq)]
pub struct Event {
    pub id: u128,
    pub occurred_at: i64,
    pub observed_at: i64,
    pub agent_id: u128,
    pub host: String,
    pub severity: Severity,
    pub title: String,
    pub category_hints: Vec<String>,
    pub payload: Payload,
}

impl Event {
    /// The detection tap this event came from, derived from its payload.
    pub fn source(&self) -> (s: Source)
        ensures
            s == self.payload.spec_source(),
    {
        self.payload.source()
    }
}

/// The severity the Kubernetes reason table assigns to `reason`.
pub open spec fn kube_severity_spec(reason: Seq<char>) -> Severity {
    if reason == "OOMKilled"@ || reason == "Evicted"@ || reason == "NodeNotReady"@ || reason
        == "SystemOOM"@ {
        Severity::Critical
    } else if reason == "CrashLoopBackOff"@ || reason == "BackOff"@ || reason == "FailedMount"@
        || reason == "FailedCreatePodSandBox"@ || reason == "Unhealthy"@ || reason
        == "MemoryPressure"@ || reason == "DiskPressure"@ || reason == "PIDPressure"@ {
        Severity::Error
    } else if reason == "Created"@ || reason == "Started"@ || reason == "Pulled"@ || reason
        == "Scheduled"@ || reason == "SuccessfulCreate"@ {
        Severity::Info
    } else {
        Severity::Warning
    }
}

/// The hard-failure reasons (`OOMKilled`, `Evicted`, `NodeNotReady`,
/// `SystemOOM`) are critical; crash loops, back-offs, mount and sandbox
/// failures, failed probes and node pressure are errors; lifecycle
/// transitions (`Created`, `Started`, `Pulled`, `Scheduled`,
/// `SuccessfulCreate`) are informational.
pub proof fn kube_reason_severities(reason: Seq<char>)
    ensures
        (reason == "OOMKilled"@ || reason == "Evicted"@ || reason == "NodeNotReady"@ || reason
            == "SystemOOM"@) ==> kube_severity_spec(reason) == Severity::Critical,
        (reason == "CrashLoopBackOff"@ || reason == "BackOff"@ || reason == "FailedMount"@ || reason
            == "FailedCreatePodSandBox"@ || reason == "Unhealthy"@ || reason == "MemoryPressure"@
            || reason == "DiskPressure"@ || reason == "PIDPressure"@) ==> kube_severity_spec(reason)
            == Severity::Error,
        (reason == "Created"@ || reason == "Started"@ || reason == "Pulled"@ || reason
            == "Scheduled"@ || reason == "SuccessfulCreate"@) ==> kube_severity_spec(reason)
            == Severity::Info,
{
    reveal_strlit("OOMKilled");
    reveal_strlit("Evicted");
    reveal_strlit("NodeNotReady");
    reveal_strlit("SystemOOM");
    reveal_strlit("CrashLoopBackOff");
    reveal_strlit("BackOff");
    reveal_strlit("FailedMount");
    reveal_strlit("FailedCreatePodSandBox");
    reveal_strlit("Unhealthy");
    reveal_strlit("MemoryPressure");
    reveal_strlit("DiskPressure");
    reveal_strlit("PIDPressure");
    assert("CrashLoopBackOff"@.len() != "OOMKilled"@.len());
    assert("CrashLoopBackOff"@.len() != "Evicted"@.len());
    assert("CrashLoopBackOff"@.len() != "NodeNotReady"@.len());
    assert("CrashLoopBackOff"@.len() != "SystemOOM"@.len());
    assert("BackOff"@.len() != "OOMKilled"@.len());
    assert("BackOff"@[0] != "Evicted"@[0]);
    assert("BackOff"@.len() != "NodeNotReady"@.len());
    assert("BackOff"@.len() != "SystemOOM"@.len());
    assert("FailedMount"@.len() != "OOMKilled"@.len());
    assert("FailedMount"@.len() != "Evicted"@.len());
    assert("FailedMount"@.len() != "NodeNotReady"@.len());
    assert("FailedMount"@.len() != "SystemOOM"@.len());
    assert("FailedCreatePodSandBox"@.len() != "OOMKilled"@.len());
    assert("FailedCreatePodSandBox"@.len() != "Evicted"@.len());
    assert("FailedCreatePodSandBox"@.len() != "NodeNotReady"@.len());
    assert("FailedCreatePodSandBox"@.len() != "SystemOOM"@.len());
    assert("Unhealthy"@[0] != "OOMKilled"@[0]);
    assert("Unhealthy"@.len() != "Evicted"@.len());
    assert("Unhealthy"@.len() != "NodeNotReady"@.len());
    assert("Unhealthy"@[0] != "SystemOOM"@[0]);
    assert("MemoryPressure"@.len() != "OOMKilled"@.len());
    assert("MemoryPressure"@.len() != "Evicted"@.len());
    assert("MemoryPressure"@.len() != "NodeNotReady"@.len());
    assert("MemoryPressure"@.len() != "SystemOOM"@.len());
    assert("DiskPressure"@.len() != "OOMKilled"@.len());
    assert("DiskPressure"@.len() != "Evicted"@.len());
    assert("DiskPressure"@[0] != "NodeNotReady"@[0]);
    assert("DiskPressure"@.len() != "SystemOOM"@.len());
    assert("PIDPressure"@.len() != "OOMKilled"@.len());
    assert("PIDPressure"@.len() != "Evicted"@.len());
    assert("PIDPressure"@.len() != "NodeNotReady"@.len());
    assert("PIDPressure"@.len() != "SystemOOM"@.len());
    reveal_strlit("Created");
    reveal_strlit("Started");
    reveal_strlit("Pulled");
    reveal_strlit("Scheduled");
    reveal_strlit("SuccessfulCreate");
    assert("Created"@.len() != "OOMKilled"@.len());
    assert("Created"@[0] != "Evicted"@[0]);
    assert("Created"@.len() != "NodeNotReady"@.len());
    assert("Created"@.len() != "SystemOOM"@.len());
    assert("Created"@.len() != "CrashLoopBackOff"@.len());
    assert("Created"@[0] != "BackOff"@[0]);
    assert("Created"@.len() != "FailedMount"@.len());
    assert("Created"@.len() != "FailedCreatePodSandBox"@.len());
    assert("Created"@.len() != "Unhealthy"@.len());
    assert("Created"@.len() != "MemoryPressure"@.len());
    assert("Created"@.len() != "DiskPressure"@.len());
    assert("Created"@.len() != "PIDPressure"@.len());
    assert("Started"@.len() != "OOMKilled"@.len());
    assert("Started"@[0] != "Evicted"@[0]);
    assert("Started"@.len() != "NodeNotReady"@.len());
    assert("Started"@.len() != "SystemOOM"@.len());
    assert("Started"@.len() != "CrashLoopBackOff"@.len());
    assert("Started"@[0] != "BackOff"@[0]);
    assert("Started"@.len() != "FailedMount"@.len());
    assert("Started"@.len() != "FailedCreatePodSandBox"@.len());
    assert("Started"@.len() != "Unhealthy"@.len());
    assert("Started"@.len() != "MemoryPressure"@.len());
    assert("Started"@.len() != "DiskPressure"@.len());
    assert("Started"@.len() != "PIDPressure"@.len());
    assert("Pulled"@.len() != "OOMKilled"@.len());
    assert("Pulled"@.len() != "Evicted"@.len());
    assert("Pulled"@.len() != "NodeNotReady"@.len());
    assert("Pulled"@.len() != "SystemOOM"@.len());
    assert("Pulled"@.len() != "CrashLoopBackOff"@.len());
    assert("Pulled"@.len() != "BackOff"@.len());
    assert("Pulled"@.len() != "FailedMount"@.len());
    assert("Pulled"@.len() != "FailedCreatePodSandBox"@.len());
    assert("Pulled"@.len() != "Unhealthy"@.len());
    assert("Pulled"@.len() != "MemoryPressure"@.len());
    assert("Pulled"@.len() != "DiskPressure"@.len());
    assert("Pulled"@.len() != "PIDPressure"@.len());
    assert("Scheduled"@[0] != "OOMKilled"@[0]);
    assert("Scheduled"@.len() != "Evicted"@.len());
    assert("Scheduled"@.len() != "NodeNotReady"@.len());
    assert("Scheduled"@[1] != "SystemOOM"@[1]);
    assert("Scheduled"@.len() != "CrashLoopBackOff"@.len());
    assert("Scheduled"@.len() != "BackOff"@.len());
    assert("Scheduled"@.len() != "FailedMount"@.len());
    assert("Scheduled"@.len() != "FailedCreatePodSandBox"@.len());
    assert("Scheduled"@[0] != "Unhealthy"@[0]);
    assert("Scheduled"@.len() != "MemoryPressure"@.len());
    assert("Scheduled"@.len() != "DiskPressure"@.len());
    assert("Scheduled"@.len() != "PIDPressure"@.len());
    assert("SuccessfulCreate"@.len() != "OOMKilled"@.len());
    assert("SuccessfulCreate"@.len() != "Evicted"@.len());
    assert("SuccessfulCreate"@.len() != "NodeNotReady"@.len());
    assert("SuccessfulCreate"@.len() != "SystemOOM"@.len());
    assert("SuccessfulCreate"@[0] != "CrashLoopBackOff"@[0]);
    assert("SuccessfulCreate"@.len() != "BackOff"@.len());
    assert("SuccessfulCreate"@.len() != "FailedMount"@.len());
    assert("SuccessfulCreate"@.len() != "FailedCreatePodSandBox"@.len());
    assert("SuccessfulCreate"@.len() != "Unhealthy"@.len());
    assert("SuccessfulCreate"@.len() != "MemoryPressure"@.len());
    assert("SuccessfulCreate"@.len() != "DiskPressure"@.len());
    assert("SuccessfulCreate"@.len() != "PIDPressure"@.len());
}

/// Deterministic severity for a Kubernetes event/condition reason: hard
/// failures are critical, crash loops and pressure are errors, scheduling and
/// image problems warn, lifecycle transitions are informational, and unknown
/// reasons default to `Warning`.
pub fn kube_severity_for_reason(reason: &str) -> (s: Severity)
    ensures
        s == kube_severity_spec(reason@),
{
    let r = chars_of(reason);
    if eq_lit(&r, "OOMKilled") || eq_lit(&r, "Evicted") || eq_lit(&r, "NodeNotReady") || eq_lit(
        &r,
        "SystemOOM",
    ) {
        Severity::Critical
    } else if eq_lit(&r, "CrashLoopBackOff") || eq_lit(&r, "BackOff") || eq_lit(&r, "FailedMount")
        || eq_lit(&r, "FailedCreatePodSandBox") || eq_lit(&r, "Unhealthy") || eq_lit(
        &r,
        "MemoryPressure",
    ) || eq_lit(&r, "DiskPressure") || eq_lit(&r, "PIDPressure") {
        Severity::Error
    } else if eq_lit(&r, "Created") || eq_lit(&r, "Started") || eq_lit(&r, "Pulled") || eq_lit(
        &r,
        "Scheduled",
    ) || eq_lit(&r, "SuccessfulCreate") {
        Severity::Info
    } else {
        Severity::Warning
    }
}

/// A local model's explanation of an event.
#[derive(Debug, Clone, PartialEq, Eq)]
pub struct Explanation {
    pub text: String,
    pub suggested_check: Option<String>,
    pub model: String,
    /// Microseconds since the Unix epoch.
    pub generated_at: i64,
}

/// What the agent emits: an event, explained or not.
#[derive(Debug, Clone, PartialEq, Eq)]
pub struct Message {
    pub event: Event,
    pub explanation: Option<Explanation>,
}

impl Message {
    /// A message carrying `event`, not yet explained.
    pub fn new(event: Event) -> (m: Message)
        ensures
            m.event == event,
            m.explanation is None,
    {
        Message { event, explanation: None }
    }
}

/// The agent's periodic liveness report.
#[derive(Debug, Clone, PartialEq, Eq)]
pub struct Heartbeat {
    pub agent_id: u128,
    pub host: String,
    /// Microseconds since the Unix epoch.
    pub sent_at: i64,
    pub uptime_secs: u64,
    pub last_detection: Option<i64>,
    pub inference_enabled: bool,
    pub events_published: u64,
}

} // verus!
