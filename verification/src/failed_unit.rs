//! Failed-unit detection: which units count as failed in a listing, the grace
//! window a failure must outlast before it is reported (exactly once per
//! failure episode), and the event reported for it.

use vstd::prelude::*;

use crate::event::{Event, FailedUnitPayload, Payload, Severity};
use crate::text::{cat, str_is};
use crate::text::copy_string;

verus! {

/// Whether some string of `s` has the characters `k`.
pub open spec fn names_has(s: Seq<String>, k: Seq<char>) -> bool {
    exists|i: int| 0 <= i < s.len() && (#[trigger] s[i])@ == k
}

/// The time recorded for `k` in `pending`, the latest entry for it winning.
pub open spec fn pending_lookup(pending: Seq<(String, u64)>, k: Seq<char>) -> Option<u64>
    decreases pending.len(),
{
    if pending.len() == 0 {
        None
    } else if pending.last().0@ == k {
        Some(pending.last().1)
    } else {
        pending_lookup(pending.drop_last(), k)
    }
}

/// `a - b`, or zero when `b` is later than `a`.
pub open spec fn sat_sub(a: u64, b: u64) -> u64 {
    if a >= b {
        (a - b) as u64
    } else {
        0
    }
}

/// Tracks how long each unit has been continuously `failed`, so a failure is
/// reported only once it has persisted for the grace window, and exactly once
/// per failure episode. Times are milliseconds on a monotonic clock.
#[derive(Debug, Clone, PartialEq, Eq)]
pub struct GraceTracker {
    /// Failed units still inside their grace window, with the time each was
    /// first seen failed.
    pending: Vec<(String, u64)>,
    /// Units already reported, while they remain failed.
    emitted: Vec<String>,
}

/// When `k` counts as first seen failed: its pending time, or `now` for a
/// failure seen for the first time.
pub open spec fn first_seen(t: GraceTracker, k: Seq<char>, now: u64) -> u64 {
    match t.pending_since(k) {
        Some(f) => f,
        None => now,
    }
}

/// Whether `k`'s failure has lasted the grace window by `now`.
pub open spec fn due(t: GraceTracker, k: Seq<char>, now: u64, grace: u64) -> bool {
    sat_sub(now, first_seen(t, k, now)) >= grace
}

/// What one observation does. Given the tracker `before`, the failed units
/// `current`, the time `now` and the window `grace`: the units reported are
/// exactly those failed now, not yet reported, whose failure has lasted the
/// window (each once); a failed unit not reported stays pending from the time
/// it was first seen; a unit no longer failed is forgotten entirely.
pub open spec fn observation(
    before: GraceTracker,
    current: Seq<String>,
    now: u64,
    grace: u64,
    after: GraceTracker,
    reported: Seq<String>,
) -> bool {
    &&& forall|k: Seq<char>| #[trigger]
        after.pending_since(k) == (if names_has(current, k) && !before.has_emitted(k) && !due(
            before,
            k,
            now,
            grace,
        ) {
            Some(first_seen(before, k, now))
        } else {
            None
        })
    &&& forall|k: Seq<char>| #[trigger]
        after.has_emitted(k) == (names_has(current, k) && (before.has_emitted(k) || due(
            before,
            k,
            now,
            grace,
        )))
    &&& forall|k: Seq<char>| #[trigger]
        names_has(reported, k) == (names_has(current, k) && !before.has_emitted(k) && due(
            before,
            k,
            now,
            grace,
        ))
    &&& forall|i: int, j: int| 0 <= i < j < reported.len() ==> reported[i]@ != reported[j]@
}

pub(crate) proof fn lemma_names_push(s: Seq<String>, x: String, k: Seq<char>)
    ensures
        names_has(s.push(x), k) == (names_has(s, k) || x@ == k),
{
    let t = s.push(x);
    if names_has(s, k) {
        let i = choose|i: int| 0 <= i < s.len() && (#[trigger] s[i])@ == k;
        assert(t[i] == s[i]);
    }
    if x@ == k {
        assert(t[s.len() as int] == x);
    }
    if names_has(t, k) {
        let i = choose|i: int| 0 <= i < t.len() && (#[trigger] t[i])@ == k;
        if i < s.len() {
            assert(t[i] == s[i]);
        }
    }
}

proof fn lemma_pending_push(p: Seq<(String, u64)>, x: (String, u64), k: Seq<char>)
    ensures
        pending_lookup(p.push(x), k) == (if x.0@ == k {
            Some(x.1)
        } else {
            pending_lookup(p, k)
        }),
{
    assert(p.push(x).drop_last() =~= p);
}

fn pending_get(pending: &Vec<(String, u64)>, name: &String) -> (r: Option<u64>)
    ensures
        r == pending_lookup(pending@, name@),
{
    let mut i = pending.len();
    assert(pending@.take(i as int) =~= pending@);
    while i > 0
        invariant
            i <= pending@.len(),
            pending_lookup(pending@, name@) == pending_lookup(pending@.take(i as int), name@),
        decreases i,
    {
        let ghost t = pending@.take(i as int);
        assert(t.drop_last() =~= pending@.take(i - 1));
        assert(t.last() == pending@[i - 1]);
        if pending[i - 1].0 == *name {
            return Some(pending[i - 1].1);
        }
        i = i - 1;
    }
    None
}

fn names_contain(names: &Vec<String>, name: &String) -> (b: bool)
    ensures
        b == names_has(names@, name@),
{
    let mut i: usize = 0;
    while i < names.len()
        invariant
            i <= names@.len(),
            forall|k: int| 0 <= k < i ==> (#[trigger] names@[k])@ != name@,
        decreases names@.len() - i,
    {
        if names[i] == *name {
            return true;
        }
        i = i + 1;
    }
    false
}

impl GraceTracker {
    /// When `k` was first seen failed, while it is inside its grace window.
    pub closed spec fn pending_since(self, k: Seq<char>) -> Option<u64> {
        pending_lookup(self.pending@, k)
    }

    /// Whether `k`'s current failure has already been reported.
    pub closed spec fn has_emitted(self, k: Seq<char>) -> bool {
        names_has(self.emitted@, k)
    }

    /// A tracker that has seen nothing.
    pub fn new() -> (t: GraceTracker)
        ensures
            forall|k: Seq<char>| #[trigger] t.pending_since(k) is None && !t.has_emitted(k),
    {
        GraceTracker { pending: Vec::new(), emitted: Vec::new() }
    }

    /// Reconcile against the currently-failed unit names at time `now` (ms)
    /// and return the units that have now been continuously failed for at
    /// least `grace` (ms) and were not yet reported. A unit that recovers
    /// before the window elapses is dropped silently; if it fails again later
    /// it re-arms. A zero window reports on first observation.
    pub fn observe(&mut self, current_failed: &Vec<String>, now: u64, grace: u64) -> (reported: Vec<
        String,
    >)
        ensures
            observation(*old(self), current_failed@, now, grace, *final(self), reported@),
    {
        let ghost before = *self;
        let ghost cur = current_failed@;
        let mut pending: Vec<(String, u64)> = Vec::new();
        let mut emitted: Vec<String> = Vec::new();
        let mut reported: Vec<String> = Vec::new();
        let mut i: usize = 0;
        while i < current_failed.len()
            invariant
                i <= cur.len(),
                cur == current_failed@,
                before == *self,
                forall|k: Seq<char>| #[trigger]
                    pending_lookup(pending@, k) == (if names_has(cur.take(i as int), k)
                        && !before.has_emitted(k) && !due(before, k, now, grace) {
                        Some(first_seen(before, k, now))
                    } else {
                        None
                    }),
                forall|k: Seq<char>| #[trigger]
                    names_has(emitted@, k) == (names_has(cur.take(i as int), k) && (
                    before.has_emitted(k) || due(before, k, now, grace))),
                forall|k: Seq<char>| #[trigger]
                    names_has(reported@, k) == (names_has(cur.take(i as int), k)
                        && !before.has_emitted(k) && due(before, k, now, grace)),
                forall|a: int, b: int|
                    0 <= a < b < reported@.len() ==> reported@[a]@ != reported@[b]@,
            decreases cur.len() - i,
        {
            let name = &current_failed[i];
            let ghost done = cur.take(i as int);
            proof {
                assert(cur.take(i + 1) =~= done.push(cur[i as int]));
                assert forall|k: Seq<char>| #[trigger]
                    names_has(cur.take(i + 1), k) == (names_has(done, k) || name@ == k) by {
                    lemma_names_push(done, cur[i as int], k);
                }
            }
            let seen_now = pending_get(&pending, name).is_some() || names_contain(&emitted, name);
            if seen_now {
                // A repeated name: its first occurrence has settled it.
                assert(names_has(done, name@));
            } else if names_contain(&self.emitted, name) {
                let ghost e0 = emitted@;
                emitted.push(name.clone());
                proof {
                    assert forall|k: Seq<char>| #[trigger] names_has(emitted@, k) == (names_has(e0, k)
                        || name@ == k) by {
                        lemma_names_push(e0, *name, k);
                    }
                }
            } else {
                let first = match pending_get(&self.pending, name) {
                    Some(f) => f,
                    None => now,
                };
                let waited = now.saturating_sub(first);
                if waited >= grace {
                    let ghost e0 = emitted@;
                    let ghost r0 = reported@;
                    emitted.push(name.clone());
                    reported.push(name.clone());
                    proof {
                        assert forall|k: Seq<char>| #[trigger] names_has(emitted@, k) == (names_has(
                            e0,
                            k,
                        ) || name@ == k) by {
                            lemma_names_push(e0, *name, k);
                        }
                        assert forall|k: Seq<char>| #[trigger] names_has(reported@, k) == (
                        names_has(r0, k) || name@ == k) by {
                            lemma_names_push(r0, *name, k);
                        }
                        assert(!names_has(r0, name@));
                        assert forall|a: int, b: int|
                            0 <= a < b < reported@.len() implies reported@[a]@ != reported@[b]@ by {
                            if b == r0.len() {
                                assert(reported@[a] == r0[a]);
                            } else {
                                assert(reported@[a] == r0[a]);
                                assert(reported@[b] == r0[b]);
                            }
                        }
                    }
                } else {
                    let ghost p0 = pending@;
                    pending.push((name.clone(), first));
                    proof {
                        assert forall|k: Seq<char>| #[trigger] pending_lookup(pending@, k) == (if name@
                            == k {
                            Some(first)
                        } else {
                            pending_lookup(p0, k)
                        }) by {
                            lemma_pending_push(p0, (*name, first), k);
                        }
                    }
                }
            }
            i = i + 1;
        }
        assert(cur.take(i as int) =~= cur);
        self.pending = pending;
        self.emitted = emitted;
        reported
    }
}

/// Zero grace reports every newly failed unit on its first observation.
pub proof fn zero_grace_reports_at_once(
    before: GraceTracker,
    current: Seq<String>,
    now: u64,
    after: GraceTracker,
    reported: Seq<String>,
    k: Seq<char>,
)
    requires
        observation(before, current, now, 0, after, reported),
    ensures
        names_has(reported, k) == (names_has(current, k) && !before.has_emitted(k)),
{
    assert(names_has(reported, k) == (names_has(current, k) && !before.has_emitted(k) && due(
        before,
        k,
        now,
        0,
    )));
}

/// A unit still failed after it was reported is not reported again.
pub proof fn reported_once_per_episode(
    before: GraceTracker,
    current: Seq<String>,
    now: u64,
    grace: u64,
    after: GraceTracker,
    reported: Seq<String>,
    k: Seq<char>,
)
    requires
        observation(before, current, now, grace, after, reported),
        before.has_emitted(k),
        names_has(current, k),
    ensures
        !names_has(reported, k),
        after.has_emitted(k),
{
    assert(names_has(reported, k) == (names_has(current, k) && !before.has_emitted(k) && due(
        before,
        k,
        now,
        grace,
    )));
    assert(after.has_emitted(k));
}

/// A unit that has recovered is forgotten: its grace timer and any earlier
/// report are cleared, so a later failure re-arms a fresh window.
pub proof fn recovery_rearms(
    before: GraceTracker,
    current: Seq<String>,
    now: u64,
    grace: u64,
    after: GraceTracker,
    reported: Seq<String>,
    k: Seq<char>,
)
    requires
        observation(before, current, now, grace, after, reported),
        !names_has(current, k),
    ensures
        after.pending_since(k) is None,
        !after.has_emitted(k),
        !names_has(reported, k),
{
    assert(after.pending_since(k) is None);
    assert(!after.has_emitted(k));
    assert(!names_has(reported, k));
}

/// A failure is only reported once it has lasted the whole grace window since
/// it was first seen.
pub proof fn reported_only_after_grace(
    before: GraceTracker,
    current: Seq<String>,
    now: u64,
    grace: u64,
    after: GraceTracker,
    reported: Seq<String>,
    k: Seq<char>,
)
    requires
        observation(before, current, now, grace, after, reported),
        names_has(reported, k),
    ensures
        sat_sub(now, first_seen(before, k, now)) >= grace,
        before.pending_since(k) is None ==> grace == 0,
{
    assert(names_has(reported, k) == (names_has(current, k) && !before.has_emitted(k) && due(
        before,
        k,
        now,
        grace,
    )));
}

/// One call of [`GraceTracker::observe`]: the failed units passed in, the
/// time, and the units it reported.
pub struct Observed {
    pub failed: Seq<String>,
    pub now: u64,
    pub reported: Seq<String>,
}

/// Where the run of consecutive calls ending at call `n - 1` in which `k` was
/// failed began: the index of its first call (`n` when `k` was not failed at
/// call `n - 1`).
pub open spec fn run_start(h: Seq<Observed>, n: int, k: Seq<char>) -> int
    decreases n,
{
    if n <= 0 || !names_has(h[n - 1].failed, k) {
        n
    } else {
        run_start(h, n - 1, k)
    }
}

/// Whether `k` was reported during the run of calls, ending at call `n - 1`,
/// in which it was continuously failed.
pub open spec fn reported_in_run(h: Seq<Observed>, n: int, k: Seq<char>) -> bool
    decreases n,
{
    if n <= 0 || !names_has(h[n - 1].failed, k) {
        false
    } else {
        names_has(h[n - 1].reported, k) || reported_in_run(h, n - 1, k)
    }
}

/// Whether `trackers` are the states of a tracker that started empty and
/// made the calls of `h` in turn, with window `grace` and times that never
/// go back.
pub open spec fn observed_history(trackers: Seq<GraceTracker>, h: Seq<Observed>, grace: u64) -> bool {
    &&& trackers.len() == h.len() + 1
    &&& forall|k: Seq<char>| #[trigger]
        trackers[0].pending_since(k) is None && !trackers[0].has_emitted(k)
    &&& forall|i: int|
        0 <= i < h.len() ==> observation(
            #[trigger] trackers[i],
            h[i].failed,
            h[i].now,
            grace,
            trackers[i + 1],
            h[i].reported,
        )
    &&& forall|i: int, j: int| 0 <= i <= j < h.len() ==> h[i].now <= h[j].now
}

proof fn lemma_run_start_bounds(h: Seq<Observed>, n: int, k: Seq<char>)
    requires
        0 <= n,
    ensures
        0 <= run_start(h, n, k) <= n,
    decreases n,
{
    if n > 0 && names_has(h[n - 1].failed, k) {
        lemma_run_start_bounds(h, n - 1, k);
    }
}

/// The tracker's state after `n` calls, read off the history.
proof fn lemma_tracker_state(trackers: Seq<GraceTracker>, h: Seq<Observed>, grace: u64, n: int)
    requires
        observed_history(trackers, h, grace),
        0 <= n <= h.len(),
    ensures
        forall|k: Seq<char>| #[trigger]
            trackers[n].has_emitted(k) == reported_in_run(h, n, k),
        forall|k: Seq<char>| #[trigger]
            trackers[n].pending_since(k) == (if n > 0 && names_has(h[n - 1].failed, k)
                && !reported_in_run(h, n, k) {
                Some(h[run_start(h, n, k)].now)
            } else {
                None
            }),
    decreases n,
{
    if n == 0 {
        assert forall|k: Seq<char>| #[trigger] trackers[0].has_emitted(k) == reported_in_run(h, 0, k) by {
            assert(trackers[0].pending_since(k) is None && !trackers[0].has_emitted(k));
        }
        assert forall|k: Seq<char>| #[trigger] trackers[0].pending_since(k) is None by {
            assert(trackers[0].pending_since(k) is None && !trackers[0].has_emitted(k));
        }
    } else {
        lemma_tracker_state(trackers, h, grace, n - 1);
        let before = trackers[n - 1];
        let after = trackers[n];
        let o = h[n - 1];
        assert(observation(before, o.failed, o.now, grace, after, o.reported));
        assert forall|k: Seq<char>| #[trigger]
            after.has_emitted(k) == reported_in_run(h, n, k) by {
            assert(after.has_emitted(k) == (names_has(o.failed, k) && (before.has_emitted(k)
                || due(before, k, o.now, grace))));
            assert(names_has(o.reported, k) == (names_has(o.failed, k) && !before.has_emitted(k)
                && due(before, k, o.now, grace)));
        }
        assert forall|k: Seq<char>| #[trigger]
            after.pending_since(k) == (if names_has(o.failed, k) && !reported_in_run(h, n, k) {
                Some(h[run_start(h, n, k)].now)
            } else {
                None
            }) by {
            assert(names_has(o.reported, k) == (names_has(o.failed, k) && !before.has_emitted(k)
                && due(before, k, o.now, grace)));
            assert(before.pending_since(k) == (if n - 1 > 0 && names_has(h[n - 2].failed, k)
                && !reported_in_run(h, n - 1, k) {
                Some(h[run_start(h, n - 1, k)].now)
            } else {
                None
            }));
            if names_has(o.failed, k) && !reported_in_run(h, n, k) {
                if n - 1 > 0 && names_has(h[n - 2].failed, k) {
                    assert(run_start(h, n, k) == run_start(h, n - 1, k));
                } else {
                    assert(run_start(h, n - 1, k) == n - 1);
                    assert(run_start(h, n, k) == n - 1);
                }
            }
        }
    }
}

/// Over any sequence of calls on a tracker that started empty, with one
/// window and times that never go back, each call reports exactly the failed
/// units that were not reported since they last became failed and whose
/// current unbroken run of failed calls began at least `grace` before it. So
/// each failure episode is reported at most once, and a unit that recovers
/// before its window elapses is never reported.
pub proof fn failures_reported_once_after_grace(
    trackers: Seq<GraceTracker>,
    h: Seq<Observed>,
    grace: u64,
    i: int,
    k: Seq<char>,
)
    requires
        observed_history(trackers, h, grace),
        0 <= i < h.len(),
    ensures
        names_has(h[i].reported, k) == (names_has(h[i].failed, k) && !reported_in_run(h, i, k)
            && h[i].now - h[run_start(h, i + 1, k)].now >= grace),
{
    lemma_tracker_state(trackers, h, grace, i);
    let before = trackers[i];
    let o = h[i];
    assert(observation(before, o.failed, o.now, grace, trackers[i + 1], o.reported));
    assert(names_has(o.reported, k) == (names_has(o.failed, k) && !before.has_emitted(k) && due(
        before,
        k,
        o.now,
        grace,
    )));
    lemma_run_start_bounds(h, i + 1, k);
    if names_has(o.failed, k) && !reported_in_run(h, i, k) {
        let r = run_start(h, i + 1, k);
        if i > 0 && names_has(h[i - 1].failed, k) {
            assert(r == run_start(h, i, k));
            lemma_run_start_bounds(h, i, k);
        } else {
            assert(run_start(h, i, k) == i);
            assert(r == i);
        }
        assert(first_seen(before, k, o.now) == h[r].now);
        assert(h[r].now <= o.now);
    }
}

/// One row of systemd's unit listing, as far as failure detection reads it.
#[derive(Debug, Clone, PartialEq, Eq)]
pub struct UnitStatus {
    pub name: String,
    pub active_state: String,
    pub sub_state: String,
}

/// The names of the units whose active state is `failed`, in listing order.
pub open spec fn failed_names(units: Seq<UnitStatus>) -> Seq<Seq<char>>
    decreases units.len(),
{
    if units.len() == 0 {
        seq![]
    } else {
        let rest = failed_names(units.drop_last());
        if units.last().active_state@ == "failed"@ {
            rest.push(units.last().name@)
        } else {
            rest
        }
    }
}

/// The failed units are exactly the units of the listing whose active state
/// is `failed`, named in listing order: the listing filtered to them.
pub proof fn failed_names_filter_the_listing(units: Seq<UnitStatus>)
    ensures
        failed_names(units) == units.filter(|u: UnitStatus| u.active_state@ == "failed"@).map_values(
            |u: UnitStatus| u.name@,
        ),
        failed_names(units).len() <= units.len(),
        forall|i: int|
            0 <= i < units.len() && (#[trigger] units[i]).active_state@ == "failed"@
                ==> failed_names(units).contains(units[i].name@),
    decreases units.len(),
{
    let p = |u: UnitStatus| u.active_state@ == "failed"@;
    let f = |u: UnitStatus| u.name@;
    reveal(Seq::filter);
    if units.len() > 0 {
        let init = units.drop_last();
        failed_names_filter_the_listing(init);
        let sub = init.filter(p);
        if p(units.last()) {
            assert(sub.push(units.last()).map_values(f) =~= sub.map_values(f).push(f(units.last())));
        }
        assert(units.filter(p) == (if p(units.last()) {
            sub.push(units.last())
        } else {
            sub
        }));
        assert forall|i: int|
            0 <= i < units.len() && (#[trigger] units[i]).active_state@ == "failed"@
                implies failed_names(units).contains(units[i].name@) by {
            if i < units.len() - 1 {
                assert(init[i] == units[i]);
                let k = choose|k: int| 0 <= k < failed_names(init).len() && failed_names(init)[k]
                    == init[i].name@;
                if p(units.last()) {
                    assert(failed_names(units)[k] == failed_names(init)[k]);
                }
            } else {
                assert(failed_names(units).last() == units[i].name@);
            }
        }
    } else {
        assert(units.filter(p) =~= units);
    }
}

/// The names of the units in `units` that are currently `failed`.
pub fn failed_unit_names(units: &Vec<UnitStatus>) -> (names: Vec<String>)
    ensures
        names@.map_values(|n: String| n@) == failed_names(units@),
{
    let mut names: Vec<String> = Vec::new();
    let mut i: usize = 0;
    while i < units.len()
        invariant
            i <= units@.len(),
            names@.map_values(|n: String| n@) == failed_names(units@.take(i as int)),
        decreases units@.len() - i,
    {
        let ghost before = names@;
        assert(units@.take(i + 1).drop_last() =~= units@.take(i as int));
        assert(units@.take(i + 1).last() == units@[i as int]);
        if str_is(units[i].active_state.as_str(), "failed") {
            names.push(copy_string(&units[i].name));
            assert(names@.map_values(|n: String| n@) =~= before.map_values(|n: String| n@).push(
                units@[i as int].name@,
            ));
        }
        i = i + 1;
    }
    assert(units@.take(i as int) =~= units@);
    names
}

/// The failed-unit tap's settings. Times are milliseconds.
#[derive(Debug, Clone, PartialEq, Eq)]
pub struct FailedUnitTap {
    pub agent_id: u128,
    pub host: String,
    /// Use the per-user systemd manager instead of the system one.
    pub user_bus: bool,
    pub poll_interval_ms: u64,
    /// A unit must stay `failed` at least this long before it is reported;
    /// zero reports on the first observation.
    pub grace_ms: u64,
}

impl FailedUnitTap {
    /// The event reporting that `unit` failed with systemd result `result`,
    /// with its recent journal lines; `id` and `now` (microseconds) are the
    /// event's identifier and time.
    pub fn build_event(
        &self,
        unit: &str,
        result: String,
        recent_log: Vec<String>,
        active_state: &str,
        id: u128,
        now: i64,
    ) -> (e: Event)
        ensures
            e.id == id,
            e.occurred_at == now,
            e.observed_at == now,
            e.agent_id == self.agent_id,
            e.host@ == self.host@,
            e.severity == Severity::Error,
            e.title@ == "unit failed: "@ + unit@,
            e.category_hints@.len() == 0,
            e.payload matches Payload::FailedUnit(p) && p.unit@ == unit@ && p.result == result
                && p.recent_log == recent_log && p.extra@.len() == 1 && p.extra@[0].0@
                == "active_state"@ && p.extra@[0].1@ == active_state@,
    {
        let mut extra: Vec<(String, String)> = Vec::new();
        extra.push(("active_state".to_string(), active_state.to_string()));
        Event {
            id,
            occurred_at: now,
            observed_at: now,
            agent_id: self.agent_id,
            host: copy_string(&self.host),
            severity: Severity::Error,
            title: cat("unit failed: ", unit),
            category_hints: Vec::new(),
            payload: Payload::FailedUnit(
                FailedUnitPayload { unit: unit.to_string(), result, recent_log, extra },
            ),
        }
    }
}

} // verus!
