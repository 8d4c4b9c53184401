//! Remediation templates: the typed capabilities the actuator may run, the
//! `{{param}}` placeholder language, and structural template validation.

use vstd::prelude::*;

use crate::event::Source;
use crate::text::{
    chars_eq, chars_of, copy_string, find, find_exec, lemma_find_bounds, matches_at, push_chars,
    push_str_chars, slice_range, string_of, trim, trim_chars,
};

verus! {

/// How dangerous a remediation is, ordered least-to-most.
#[derive(Debug, Clone, Copy, PartialEq, Eq, Structural, PartialOrd, Ord, Hash)]
pub enum RiskTier {
    Safe,
    Guarded,
    Dangerous,
}

impl RiskTier {
    /// Position in the danger order: `Safe` is 0, `Dangerous` is 2.
    pub fn rank(&self) -> (r: u8)
        ensures
            r == match self {
                RiskTier::Safe => 0u8,
                RiskTier::Guarded => 1u8,
                RiskTier::Dangerous => 2u8,
            },
    {
        match self {
            RiskTier::Safe => 0,
            RiskTier::Guarded => 1,
            RiskTier::Dangerous => 2,
        }
    }
}

/// A single typed, whitelisted operation. There is no arbitrary-shell variant.
#[derive(Debug, Clone, PartialEq, Eq)]
pub enum Capability {
    /// Clear a unit's failed state.
    ResetFailed { unit: String },
    /// Restart a systemd unit.
    RestartUnit { unit: String },
    /// Read-only: report a unit's active state.
    UnitState { unit: String },
    /// Roll the host back to its previous NixOS generation.
    NixRollback,
    /// Delete a pod so its controller recreates it.
    DeletePod { namespace: String, pod: String },
    /// Trigger a rolling restart of a deployment.
    RestartDeployment { namespace: String, deployment: String },
    /// Read-only: report the phase of the pods whose name starts with a prefix.
    PodState { namespace: String, pod_prefix: String },
}

/// The mathematical content of a [`Capability`]: its variant and the characters
/// of its string fields.
pub ghost enum CapabilityView {
    ResetFailed { unit: Seq<char> },
    RestartUnit { unit: Seq<char> },
    UnitState { unit: Seq<char> },
    NixRollback,
    DeletePod { namespace: Seq<char>, pod: Seq<char> },
    RestartDeployment { namespace: Seq<char>, deployment: Seq<char> },
    PodState { namespace: Seq<char>, pod_prefix: Seq<char> },
}

impl View for Capability {
    type V = CapabilityView;

    open spec fn view(&self) -> CapabilityView {
        match self {
            Capability::ResetFailed { unit } => CapabilityView::ResetFailed { unit: unit@ },
            Capability::RestartUnit { unit } => CapabilityView::RestartUnit { unit: unit@ },
            Capability::UnitState { unit } => CapabilityView::UnitState { unit: unit@ },
            Capability::NixRollback => CapabilityView::NixRollback,
            Capability::DeletePod { namespace, pod } => CapabilityView::DeletePod {
                namespace: namespace@,
                pod: pod@,
            },
            Capability::RestartDeployment { namespace, deployment } =>
                CapabilityView::RestartDeployment { namespace: namespace@, deployment: deployment@ },
            Capability::PodState { namespace, pod_prefix } => CapabilityView::PodState {
                namespace: namespace@,
                pod_prefix: pod_prefix@,
            },
        }
    }
}

/// Whether a capability only observes host or cluster state.
pub open spec fn read_only_view(c: CapabilityView) -> bool {
    c is UnitState || c is PodState
}

/// The string fields of a capability, in declaration order.
pub open spec fn cap_fields(c: CapabilityView) -> Seq<Seq<char>> {
    match c {
        CapabilityView::ResetFailed { unit } => seq![unit],
        CapabilityView::RestartUnit { unit } => seq![unit],
        CapabilityView::UnitState { unit } => seq![unit],
        CapabilityView::NixRollback => seq![],
        CapabilityView::DeletePod { namespace, pod } => seq![namespace, pod],
        CapabilityView::RestartDeployment { namespace, deployment } => seq![namespace, deployment],
        CapabilityView::PodState { namespace, pod_prefix } => seq![namespace, pod_prefix],
    }
}

/// The value bound to `name` in `values` (the first entry with that key).
pub open spec fn lookup(values: Seq<(String, String)>, name: Seq<char>) -> Option<Seq<char>>
    decreases values.len(),
{
    if values.len() == 0 {
        None
    } else if values[0].0@ == name {
        Some(values[0].1@)
    } else {
        lookup(values.drop_first(), name)
    }
}

/// Where the next complete `{{name}}` placeholder in `s` sits: the index of its
/// `{{` and the index (within the text after `{{`) of its `}}`.
pub open spec fn next_placeholder(s: Seq<char>) -> Option<(int, int)> {
    match find(s, "{{"@) {
        None => None,
        Some(start) => match find(s.skip(start + 2), "}}"@) {
            None => None,
            Some(end) => Some((start, end)),
        },
    }
}

/// Rendering of `raw`: every complete `{{ name }}` (whitespace inside the
/// braces trimmed) is replaced by its value; an unclosed `{{` and all text
/// after it stay literal. `Err(name)` names the first placeholder without a
/// value.
pub open spec fn render(raw: Seq<char>, values: Seq<(String, String)>) -> Result<
    Seq<char>,
    Seq<char>,
>
    decreases raw.len(),
{
    match next_placeholder(raw) {
        None => Ok(raw),
        Some((start, end)) => {
            let after = raw.skip(start + 2);
            let name = trim(after.take(end));
            match lookup(values, name) {
                None => Err(name),
                Some(v) => if 0 <= start && 0 <= end && start + 2 + end + 2 <= raw.len() {
                    match render(after.skip(end + 2), values) {
                        Ok(r) => Ok(raw.take(start) + v + r),
                        Err(e) => Err(e),
                    }
                } else {
                    Ok(raw)
                },
            }
        },
    }
}

/// The names of the complete placeholders in `raw`, in order.
pub open spec fn placeholders(raw: Seq<char>) -> Seq<Seq<char>>
    decreases raw.len(),
{
    match next_placeholder(raw) {
        None => seq![],
        Some((start, end)) => {
            let after = raw.skip(start + 2);
            if 0 <= start && 0 <= end && start + 2 + end + 2 <= raw.len() {
                seq![trim(after.take(end))] + placeholders(after.skip(end + 2))
            } else {
                seq![]
            }
        },
    }
}

/// Every name in `names` has a value in `values`.
pub open spec fn all_bound(names: Seq<Seq<char>>, values: Seq<(String, String)>) -> bool {
    forall|i: int| 0 <= i < names.len() ==> lookup(values, #[trigger] names[i]) is Some
}

proof fn lemma_next_placeholder_bounds(s: Seq<char>)
    ensures
        next_placeholder(s) matches Some((start, end)) ==> 0 <= start && 0 <= end && start + 2
            + end + 2 <= s.len(),
{
    lemma_find_bounds(s, "{{"@, 0);
    if let Some(start) = find(s, "{{"@) {
        assert(("{{"@).len() == 2) by {
            reveal_strlit("{{");
        }
        lemma_find_bounds(s.skip(start + 2), "}}"@, 0);
        assert(("}}"@).len() == 2) by {
            reveal_strlit("}}");
        }
    }
}

/// Rendering succeeds exactly when every placeholder in `raw` has a value.
pub proof fn render_ok_iff_placeholders_bound(raw: Seq<char>, values: Seq<(String, String)>)
    ensures
        render(raw, values) is Ok <==> all_bound(placeholders(raw), values),
    decreases raw.len(),
{
    lemma_next_placeholder_bounds(raw);
    match next_placeholder(raw) {
        None => {},
        Some((start, end)) => {
            let after = raw.skip(start + 2);
            let name = trim(after.take(end));
            let rest = after.skip(end + 2);
            render_ok_iff_placeholders_bound(rest, values);
            let ps = placeholders(raw);
            assert(ps == seq![name] + placeholders(rest));
            if all_bound(ps, values) {
                assert(ps[0] == name);
                assert forall|i: int| 0 <= i < placeholders(rest).len() implies lookup(
                    values,
                    #[trigger] placeholders(rest)[i],
                ) is Some by {
                    assert(ps[i + 1] == placeholders(rest)[i]);
                }
            }
            if render(raw, values) is Ok {
                assert forall|i: int| 0 <= i < ps.len() implies lookup(
                    values,
                    #[trigger] ps[i],
                ) is Some by {
                    if i > 0 {
                        assert(ps[i] == placeholders(rest)[i - 1]);
                    }
                }
            }
        },
    }
}

/// Failure resolving `{{param}}` placeholders against supplied values.
#[derive(Debug, Clone, PartialEq, Eq)]
pub enum RenderError {
    /// A placeholder had no supplied value.
    MissingValue(String),
    /// A placeholder was still present after substitution: a supplied value
    /// carried one in, so the result would not be concrete.
    Unresolved(String),
}

/// Whether the characters of `name` equal those of `key`.
fn key_is(key: &String, name: &[char]) -> (b: bool)
    ensures
        b == (key@ == name@),
{
    let k = chars_of(key.as_str());
    chars_eq(&k, name)
}

/// The characters bound to `name` in `values`.
fn lookup_exec(values: &[(String, String)], name: &[char]) -> (r: Option<Vec<char>>)
    ensures
        match r {
            Some(v) => lookup(values@, name@) == Some(v@),
            None => lookup(values@, name@) is None,
        },
{
    let mut i: usize = 0;
    assert(values@.skip(0) =~= values@);
    while i < values.len()
        invariant
            i <= values@.len(),
            lookup(values@, name@) == lookup(values@.skip(i as int), name@),
        decreases values@.len() - i,
    {
        assert(values@.skip(i as int)[0] == values@[i as int]);
        assert(values@.skip(i as int).drop_first() =~= values@.skip(i + 1));
        if key_is(&values[i].0, name) {
            return Some(chars_of(values[i].1.as_str()));
        }
        i = i + 1;
    }
    None
}

/// Splits off the next complete placeholder of `s`: the index of `{{`, the
/// index of `}}` within the text after it, and the trimmed name.
fn next_placeholder_exec(s: &[char]) -> (r: Option<(usize, usize, Vec<char>)>)
    ensures
        match r {
            Some((start, end, name)) => next_placeholder(s@) == Some((start as int, end as int))
                && name@ == trim(s@.skip(start + 2).take(end as int)) && start + 2 + end + 2
                <= s@.len(),
            None => next_placeholder(s@) is None,
        },
{
    proof {
        lemma_next_placeholder_bounds(s@);
        reveal_strlit("{{");
        reveal_strlit("}}");
    }
    let open = chars_of("{{");
    let close = chars_of("}}");
    match find_exec(s, &open) {
        None => None,
        Some(start) => {
            proof {
                lemma_find_bounds(s@, "{{"@, 0);
                assert(open@.len() == 2);
                assert(matches_at(s@, open@, start as int));
                assert(start + 2 <= s.len());
            }
            let after = slice_range(s, start + 2, s.len());
            assert(after@ =~= s@.skip(start + 2));
            match find_exec(&after, &close) {
                None => None,
                Some(end) => {
                    let inner = slice_range(&after, 0, end);
                    assert(inner@ =~= after@.take(end as int));
                    let name = trim_chars(&inner);
                    Some((start, end, name))
                },
            }
        },
    }
}

/// Resolves placeholders in `raw` on characters.
fn render_chars(raw: &[char], values: &[(String, String)]) -> (r: Result<Vec<char>, Vec<char>>)
    ensures
        match r {
            Ok(out) => render(raw@, values@) == Ok::<Seq<char>, Seq<char>>(out@),
            Err(name) => render(raw@, values@) == Err::<Seq<char>, Seq<char>>(name@),
        },
{
    let mut rest: Vec<char> = slice_range(raw, 0, raw.len());
    assert(rest@ =~= raw@);
    let mut out: Vec<char> = Vec::new();
    loop
        invariant
            match render(rest@, values@) {
                Ok(t) => render(raw@, values@) == Ok::<Seq<char>, Seq<char>>(out@ + t),
                Err(e) => render(raw@, values@) == Err::<Seq<char>, Seq<char>>(e),
            },
        decreases rest@.len(),
    {
        match next_placeholder_exec(&rest) {
            None => {
                push_chars(&mut out, &rest);
                return Ok(out);
            },
            Some((start, end, name)) => {
                match lookup_exec(values, &name) {
                    None => {
                        return Err(name);
                    },
                    Some(v) => {
                        let ghost old_rest = rest@;
                        let ghost old_out = out@;
                        let head = slice_range(&rest, 0, start);
                        assert(head@ =~= rest@.take(start as int));
                        push_chars(&mut out, &head);
                        push_chars(&mut out, &v);
                        assert(start + 2 + end + 2 <= rest.len());
                        let tail = slice_range(&rest, start + 2 + end + 2, rest.len());
                        assert(tail@ =~= old_rest.skip(start + 2).skip(end + 2));
                        rest = tail;
                        proof {
                            match render(rest@, values@) {
                                Ok(t) => {
                                    assert(out@ + t =~= old_out + (old_rest.take(start as int) + v@
                                        + t));
                                },
                                Err(_) => {},
                            }
                        }
                    },
                }
            },
        }
    }
}

/// Replace every `{{name}}` in `raw` with the value bound to `name`, erroring
/// on the first placeholder without a value. Whitespace inside the braces is
/// tolerated (`{{ name }}`); an unclosed `{{` is kept literally.
pub fn resolve_str(raw: &str, values: &[(String, String)]) -> (r: Result<String, RenderError>)
    ensures
        match r {
            Ok(s) => render(raw@, values@) == Ok::<Seq<char>, Seq<char>>(s@),
            Err(RenderError::MissingValue(n)) => render(raw@, values@) == Err::<
                Seq<char>,
                Seq<char>,
            >(n@),
            Err(RenderError::Unresolved(_)) => false,
        },
{
    let v = chars_of(raw);
    match render_chars(&v, values) {
        Ok(out) => Ok(string_of(&out)),
        Err(name) => Err(RenderError::MissingValue(string_of(&name))),
    }
}

/// The placeholder names referenced by `raw`, in order.
pub fn placeholders_in_str(raw: &str) -> (names: Vec<String>)
    ensures
        names@.len() == placeholders(raw@).len(),
        forall|i: int| 0 <= i < names@.len() ==> #[trigger] names@[i]@ == placeholders(raw@)[i],
{
    let mut rest = chars_of(raw);
    let mut names: Vec<String> = Vec::new();
    let ghost mut done: Seq<Seq<char>> = seq![];
    loop
        invariant
            placeholders(raw@) == done + placeholders(rest@),
            names@.len() == done.len(),
            forall|i: int| 0 <= i < names@.len() ==> #[trigger] names@[i]@ == done[i],
        decreases rest@.len(),
    {
        match next_placeholder_exec(&rest) {
            None => {
                assert(done + seq![] =~= done);
                return names;
            },
            Some((start, end, name)) => {
                let ghost old_rest = rest@;
                names.push(string_of(&name));
                proof {
                    done = done.push(name@);
                }
                assert(start + 2 + end + 2 <= rest.len());
                let tail = slice_range(&rest, start + 2 + end + 2, rest.len());
                assert(tail@ =~= old_rest.skip(start + 2).skip(end + 2));
                rest = tail;
                assert(placeholders(raw@) =~= done + placeholders(rest@));
            },
        }
    }
}

/// The placeholder names referenced by a capability, field by field.
pub open spec fn cap_placeholders(c: CapabilityView) -> Seq<Seq<char>> {
    let fs = cap_fields(c);
    if fs.len() == 0 {
        seq![]
    } else if fs.len() == 1 {
        placeholders(fs[0])
    } else {
        placeholders(fs[0]) + placeholders(fs[1])
    }
}

/// Collect the placeholder names referenced by a capability's string fields.
pub fn placeholders_in_capability(cap: &Capability) -> (names: Vec<String>)
    ensures
        names@.len() == cap_placeholders(cap@).len(),
        forall|i: int|
            0 <= i < names@.len() ==> #[trigger] names@[i]@ == cap_placeholders(cap@)[i],
{
    match cap {
        Capability::ResetFailed { unit } => {
            assert(cap_fields(cap@) =~= seq![unit@]);
            let r = placeholders_in_str(unit.as_str());
            assert(cap_placeholders(cap@) == placeholders(unit@));
            assert(forall|i: int| 0 <= i < r@.len() ==> #[trigger] r@[i]@ == placeholders(unit@)[i]);
            r
        },
        Capability::RestartUnit { unit } => {
            assert(cap_fields(cap@) =~= seq![unit@]);
            let r = placeholders_in_str(unit.as_str());
            assert(cap_placeholders(cap@) == placeholders(unit@));
            assert(forall|i: int| 0 <= i < r@.len() ==> #[trigger] r@[i]@ == placeholders(unit@)[i]);
            r
        },
        Capability::UnitState { unit } => {
            assert(cap_fields(cap@) =~= seq![unit@]);
            let r = placeholders_in_str(unit.as_str());
            assert(cap_placeholders(cap@) == placeholders(unit@));
            assert(forall|i: int| 0 <= i < r@.len() ==> #[trigger] r@[i]@ == placeholders(unit@)[i]);
            r
        },
        Capability::NixRollback => Vec::new(),
        Capability::DeletePod { namespace, pod } => {
            assert(cap_fields(cap@) =~= seq![namespace@, pod@]);
            two_field_placeholders(namespace, pod)
        },
        Capability::RestartDeployment { namespace, deployment } => {
            assert(cap_fields(cap@) =~= seq![namespace@, deployment@]);
            two_field_placeholders(namespace, deployment)
        },
        Capability::PodState { namespace, pod_prefix } => {
            assert(cap_fields(cap@) =~= seq![namespace@, pod_prefix@]);
            two_field_placeholders(namespace, pod_prefix)
        },
    }
}

/// The placeholders of `first` followed by those of `second`.
fn two_field_placeholders(first: &String, second: &String) -> (names: Vec<String>)
    ensures
        names@.len() == (placeholders(first@) + placeholders(second@)).len(),
        forall|i: int|
            0 <= i < names@.len() ==> #[trigger] names@[i]@ == (placeholders(first@)
                + placeholders(second@))[i],
{
    let mut a = placeholders_in_str(first.as_str());
    let b = placeholders_in_str(second.as_str());
    let ghost a0 = a@;
    let ghost p1 = placeholders(first@);
    let ghost p2 = placeholders(second@);
    let mut i: usize = 0;
    while i < b.len()
        invariant
            i <= b@.len(),
            b@.len() == p2.len(),
            a0.len() == p1.len(),
            a@.len() == a0.len() + i,
            forall|k: int| 0 <= k < a0.len() ==> #[trigger] a@[k]@ == p1[k],
            forall|k: int| 0 <= k < i ==> #[trigger] a@[a0.len() + k]@ == p2[k],
            forall|k: int| 0 <= k < b@.len() ==> #[trigger] b@[k]@ == p2[k],
        decreases b@.len() - i,
    {
        a.push(b[i].clone());
        i = i + 1;
    }
    assert forall|k: int| 0 <= k < a@.len() implies #[trigger] a@[k]@ == (p1 + p2)[k] by {
        if k >= a0.len() {
            assert(a@[a0.len() + (k - a0.len())]@ == p2[k - a0.len()]);
        }
    }
    a
}

/// The result of resolving every string field of a capability.
pub open spec fn resolve_cap(c: CapabilityView, values: Seq<(String, String)>) -> Result<
    CapabilityView,
    Seq<char>,
> {
    match c {
        CapabilityView::ResetFailed { unit } => match render(unit, values) {
            Ok(u) => Ok(CapabilityView::ResetFailed { unit: u }),
            Err(e) => Err(e),
        },
        CapabilityView::RestartUnit { unit } => match render(unit, values) {
            Ok(u) => Ok(CapabilityView::RestartUnit { unit: u }),
            Err(e) => Err(e),
        },
        CapabilityView::UnitState { unit } => match render(unit, values) {
            Ok(u) => Ok(CapabilityView::UnitState { unit: u }),
            Err(e) => Err(e),
        },
        CapabilityView::NixRollback => Ok(CapabilityView::NixRollback),
        CapabilityView::DeletePod { namespace, pod } => match render(namespace, values) {
            Err(e) => Err(e),
            Ok(n) => match render(pod, values) {
                Ok(p) => Ok(CapabilityView::DeletePod { namespace: n, pod: p }),
                Err(e) => Err(e),
            },
        },
        CapabilityView::RestartDeployment { namespace, deployment } => match render(
            namespace,
            values,
        ) {
            Err(e) => Err(e),
            Ok(n) => match render(deployment, values) {
                Ok(d) => Ok(CapabilityView::RestartDeployment { namespace: n, deployment: d }),
                Err(e) => Err(e),
            },
        },
        CapabilityView::PodState { namespace, pod_prefix } => match render(namespace, values) {
            Err(e) => Err(e),
            Ok(n) => match render(pod_prefix, values) {
                Ok(p) => Ok(CapabilityView::PodState { namespace: n, pod_prefix: p }),
                Err(e) => Err(e),
            },
        },
    }
}

impl Capability {
    /// A copy of this capability with the same variant and field contents.
    pub fn copy(&self) -> (r: Capability)
        ensures
            r@ == self@,
    {
        match self {
            Capability::ResetFailed { unit } => Capability::ResetFailed { unit: copy_string(unit) },
            Capability::RestartUnit { unit } => Capability::RestartUnit { unit: copy_string(unit) },
            Capability::UnitState { unit } => Capability::UnitState { unit: copy_string(unit) },
            Capability::NixRollback => Capability::NixRollback,
            Capability::DeletePod { namespace, pod } => Capability::DeletePod {
                namespace: copy_string(namespace),
                pod: copy_string(pod),
            },
            Capability::RestartDeployment { namespace, deployment } =>
                Capability::RestartDeployment {
                namespace: copy_string(namespace),
                deployment: copy_string(deployment),
            },
            Capability::PodState { namespace, pod_prefix } => Capability::PodState {
                namespace: copy_string(namespace),
                pod_prefix: copy_string(pod_prefix),
            },
        }
    }

    /// Whether this capability only observes (never mutates) state.
    pub fn is_read_only(&self) -> (b: bool)
        ensures
            b == read_only_view(self@),
    {
        match self {
            Capability::UnitState { .. } | Capability::PodState { .. } => true,
            _ => false,
        }
    }

    /// Resolve `{{param}}` placeholders in this capability's string fields
    /// against `values`, returning a concrete capability of the same kind with
    /// no placeholders left. A placeholder without a value is
    /// `MissingValue`; a result that would still hold a placeholder (carried in
    /// by a value) is `Unresolved`, naming the first one.
    pub fn resolve(&self, values: &[(String, String)]) -> (r: Result<Capability, RenderError>)
        ensures
            match r {
                Ok(c) => resolve_cap(self@, values@) == Ok::<CapabilityView, Seq<char>>(c@)
                    && cap_placeholders(c@).len() == 0,
                Err(RenderError::MissingValue(n)) => resolve_cap(self@, values@) == Err::<
                    CapabilityView,
                    Seq<char>,
                >(n@),
                Err(RenderError::Unresolved(n)) => match resolve_cap(self@, values@) {
                    Ok(c) => cap_placeholders(c).len() > 0 && n@ == cap_placeholders(c)[0],
                    Err(_) => false,
                },
            },
    {
        let c = match self.render_fields(values) {
            Ok(c) => c,
            Err(e) => return Err(e),
        };
        let names = placeholders_in_capability(&c);
        if names.len() > 0 {
            Err(RenderError::Unresolved(copy_string(&names[0])))
        } else {
            Ok(c)
        }
    }

    /// Substitutes the values into each string field, one pass per field.
    fn render_fields(&self, values: &[(String, String)]) -> (r: Result<Capability, RenderError>)
        ensures
            match r {
                Ok(c) => resolve_cap(self@, values@) == Ok::<CapabilityView, Seq<char>>(c@),
                Err(RenderError::MissingValue(n)) => resolve_cap(self@, values@) == Err::<
                    CapabilityView,
                    Seq<char>,
                >(n@),
                Err(RenderError::Unresolved(_)) => false,
            },
    {
        match self {
            Capability::ResetFailed { unit } => {
                let u = resolve_str(unit.as_str(), values)?;
                Ok(Capability::ResetFailed { unit: u })
            },
            Capability::RestartUnit { unit } => {
                let u = resolve_str(unit.as_str(), values)?;
                Ok(Capability::RestartUnit { unit: u })
            },
            Capability::UnitState { unit } => {
                let u = resolve_str(unit.as_str(), values)?;
                Ok(Capability::UnitState { unit: u })
            },
            Capability::NixRollback => Ok(Capability::NixRollback),
            Capability::DeletePod { namespace, pod } => {
                let n = resolve_str(namespace.as_str(), values)?;
                let p = resolve_str(pod.as_str(), values)?;
                Ok(Capability::DeletePod { namespace: n, pod: p })
            },
            Capability::RestartDeployment { namespace, deployment } => {
                let n = resolve_str(namespace.as_str(), values)?;
                let d = resolve_str(deployment.as_str(), values)?;
                Ok(Capability::RestartDeployment { namespace: n, deployment: d })
            },
            Capability::PodState { namespace, pod_prefix } => {
                let n = resolve_str(namespace.as_str(), values)?;
                let p = resolve_str(pod_prefix.as_str(), values)?;
                Ok(Capability::PodState { namespace: n, pod_prefix: p })
            },
        }
    }
}

/// A read-only check plus the value it must equal.
#[derive(Debug, Clone, PartialEq, Eq)]
pub struct Condition {
    pub check: Capability,
    pub equals: String,
}

/// A post-condition with a bounded wait for the desired state to appear.
#[derive(Debug, Clone, PartialEq, Eq)]
pub struct Verify {
    pub check: Capability,
    pub equals: String,
    /// How long to wait for the desired state, in seconds.
    pub timeout_s: u64,
}

/// The verify timeout used when a template does not give one.
pub fn default_verify_timeout() -> (t: u64)
    ensures
        t == 30,
{
    30
}

/// What to do if verification fails.
#[derive(Debug, Clone, Copy, PartialEq, Eq, Structural, Hash)]
pub enum Rollback {
    /// No rollback (the remediation is idempotent/safe).
    NoAction,
    /// Roll the host back to its previous NixOS generation.
    NixGeneration,
}

/// The kind of a declared template parameter.
#[derive(Debug, Clone, Copy, PartialEq, Eq, Structural, Hash)]
pub enum ParamType {
    String,
}

/// A declared template parameter and where its value comes from.
#[derive(Debug, Clone, PartialEq, Eq)]
pub struct ParameterSpec {
    pub ty: ParamType,
    /// Dotted path into the triggering event, e.g. `payload.unit`.
    pub from: String,
}

/// The fault signature a template matches.
#[derive(Debug, Clone, PartialEq, Eq)]
pub struct TemplateMatch {
    pub source: Source,
    /// Extra equality conditions on the event, as `(field, value)` pairs.
    pub conditions: Vec<(String, String)>,
}

/// A pre-authored, deterministic remediation.
#[derive(Debug, Clone, PartialEq, Eq)]
pub struct Template {
    pub id: String,
    pub version: u32,
    pub title: String,
    pub risk_tier: RiskTier,
    pub match_: TemplateMatch,
    /// Declared parameters, as `(name, spec)` pairs.
    pub parameters: Vec<(String, ParameterSpec)>,
    pub preconditions: Vec<Condition>,
    /// The ordered capabilities to run.
    pub steps: Vec<Capability>,
    pub verify: Option<Verify>,
    pub rollback: Rollback,
}

/// Why a [`Template`] failed validation.
#[derive(Debug, Clone, PartialEq, Eq)]
pub enum TemplateError {
    /// A `{{name}}` placeholder referenced a parameter the template didn't declare.
    UndeclaredParameter(String),
    /// A precondition or verify used a capability that mutates state.
    NonReadOnlyCheck,
    /// The template declared no steps to run.
    NoSteps,
}

/// The mathematical content of a [`TemplateError`].
pub ghost enum TemplateFault {
    UndeclaredParameter(Seq<char>),
    NonReadOnlyCheck,
    NoSteps,
}

impl View for TemplateError {
    type V = TemplateFault;

    open spec fn view(&self) -> TemplateFault {
        match self {
            TemplateError::UndeclaredParameter(p) => TemplateFault::UndeclaredParameter(p@),
            TemplateError::NonReadOnlyCheck => TemplateFault::NonReadOnlyCheck,
            TemplateError::NoSteps => TemplateFault::NoSteps,
        }
    }
}

impl TemplateError {
    /// The human-readable message describing this error.
    pub fn message(&self) -> (s: String)
        ensures
            s@ == match self {
                TemplateError::UndeclaredParameter(p) => "template uses undeclared parameter {{"@
                    + p@ + "}}"@,
                TemplateError::NonReadOnlyCheck =>
                    "preconditions and verify must use read-only check capabilities"@,
                TemplateError::NoSteps => "template declares no steps"@,
            },
    {
        let mut out: Vec<char> = Vec::new();
        match self {
            TemplateError::UndeclaredParameter(p) => {
                push_str_chars(&mut out, "template uses undeclared parameter {{");
                push_str_chars(&mut out, p.as_str());
                push_str_chars(&mut out, "}}");
            },
            TemplateError::NonReadOnlyCheck => {
                push_str_chars(
                    &mut out,
                    "preconditions and verify must use read-only check capabilities",
                );
            },
            TemplateError::NoSteps => {
                push_str_chars(&mut out, "template declares no steps");
            },
        }
        proof {
            assert(seq![] + "template uses undeclared parameter {{"@ =~=
                "template uses undeclared parameter {{"@);
            assert(seq![] + "preconditions and verify must use read-only check capabilities"@ =~=
                "preconditions and verify must use read-only check capabilities"@);
            assert(seq![] + "template declares no steps"@ =~= "template declares no steps"@);
        }
        string_of(&out)
    }
}

impl RenderError {
    /// The human-readable message describing this error.
    pub fn message(&self) -> (s: String)
        ensures
            s@ == match self {
                RenderError::MissingValue(p) => "no value supplied for parameter {{"@ + p@
                    + "}}"@,
                RenderError::Unresolved(p) => "placeholder {{"@ + p@
                    + "}} is left after substitution"@,
            },
    {
        let mut out: Vec<char> = Vec::new();
        match self {
            RenderError::MissingValue(p) => {
                push_str_chars(&mut out, "no value supplied for parameter {{");
                push_str_chars(&mut out, p.as_str());
                push_str_chars(&mut out, "}}");
                assert(seq![] + "no value supplied for parameter {{"@ =~=
                    "no value supplied for parameter {{"@);
            },
            RenderError::Unresolved(p) => {
                push_str_chars(&mut out, "placeholder {{");
                push_str_chars(&mut out, p.as_str());
                push_str_chars(&mut out, "}} is left after substitution");
                assert(seq![] + "placeholder {{"@ =~= "placeholder {{"@);
            },
        }
        string_of(&out)
    }
}

/// The names of the declared parameters.
pub open spec fn declared_names(params: Seq<(String, ParameterSpec)>) -> Seq<Seq<char>> {
    params.map_values(|p: (String, ParameterSpec)| p.0@)
}

/// The first name in `names` that is not among `declared`.
pub open spec fn first_undeclared(names: Seq<Seq<char>>, declared: Seq<Seq<char>>) -> Option<
    Seq<char>,
>
    decreases names.len(),
{
    if names.len() == 0 {
        None
    } else if !declared.contains(names[0]) {
        Some(names[0])
    } else {
        first_undeclared(names.drop_first(), declared)
    }
}

/// The fault a capability's placeholders cause, if any.
pub open spec fn placeholder_fault(c: CapabilityView, declared: Seq<Seq<char>>) -> Option<
    TemplateFault,
> {
    match first_undeclared(cap_placeholders(c), declared) {
        Some(n) => Some(TemplateFault::UndeclaredParameter(n)),
        None => None,
    }
}

/// The fault a check (precondition or verify) causes, if any: a mutating
/// capability first, then an undeclared placeholder.
pub open spec fn check_fault(c: CapabilityView, declared: Seq<Seq<char>>) -> Option<
    TemplateFault,
> {
    if !read_only_view(c) {
        Some(TemplateFault::NonReadOnlyCheck)
    } else {
        placeholder_fault(c, declared)
    }
}

/// The first fault among the preconditions, in order.
pub open spec fn conditions_fault(conds: Seq<Condition>, declared: Seq<Seq<char>>) -> Option<
    TemplateFault,
>
    decreases conds.len(),
{
    if conds.len() == 0 {
        None
    } else {
        match check_fault(conds[0].check@, declared) {
            Some(f) => Some(f),
            None => conditions_fault(conds.drop_first(), declared),
        }
    }
}

/// The first fault among the steps, in order.
pub open spec fn steps_fault(steps: Seq<Capability>, declared: Seq<Seq<char>>) -> Option<
    TemplateFault,
>
    decreases steps.len(),
{
    if steps.len() == 0 {
        None
    } else {
        match placeholder_fault(steps[0]@, declared) {
            Some(f) => Some(f),
            None => steps_fault(steps.drop_first(), declared),
        }
    }
}

/// The outcome of validation: preconditions are checked first, then steps,
/// then the verify check, and finally that at least one step exists.
pub open spec fn template_fault(t: Template) -> Option<TemplateFault> {
    let declared = declared_names(t.parameters@);
    match conditions_fault(t.preconditions@, declared) {
        Some(f) => Some(f),
        None => match steps_fault(t.steps@, declared) {
            Some(f) => Some(f),
            None => match t.verify {
                Some(v) if check_fault(v.check@, declared) is Some => check_fault(
                    v.check@,
                    declared,
                ),
                _ => if t.steps@.len() == 0 {
                    Some(TemplateFault::NoSteps)
                } else {
                    None
                },
            },
        },
    }
}

/// The first of `names` not among `declared`.
fn first_undeclared_exec(names: &Vec<String>, declared: &Vec<Vec<char>>) -> (r: Option<String>)
    ensures
        match r {
            Some(n) => first_undeclared(names@.map_values(|s: String| s@), declared@.map_values(
                |d: Vec<char>| d@,
            )) == Some(n@),
            None => first_undeclared(
                names@.map_values(|s: String| s@),
                declared@.map_values(|d: Vec<char>| d@),
            ) is None,
        },
{
    let ghost dv = declared@.map_values(|d: Vec<char>| d@);
    let ghost nv = names@.map_values(|s: String| s@);
    let mut i: usize = 0;
    assert(nv.skip(0) =~= nv);
    while i < names.len()
        invariant
            i <= names@.len(),
            nv == names@.map_values(|s: String| s@),
            dv == declared@.map_values(|d: Vec<char>| d@),
            first_undeclared(nv, dv) == first_undeclared(nv.skip(i as int), dv),
        decreases names@.len() - i,
    {
        let name = chars_of(names[i].as_str());
        assert(nv.skip(i as int)[0] == name@);
        assert(nv.skip(i as int).drop_first() =~= nv.skip(i + 1));
        let mut found = false;
        let mut j: usize = 0;
        while j < declared.len()
            invariant
                j <= declared@.len(),
                dv == declared@.map_values(|d: Vec<char>| d@),
                found == (exists|k: int| 0 <= k < j && dv[k] == name@),
            decreases declared@.len() - j,
        {
            assert(dv[j as int] == declared@[j as int]@);
            if chars_eq(&declared[j], &name) {
                found = true;
            }
            j = j + 1;
        }
        if !found {
            proof {
                if dv.contains(name@) {
                    let k = choose|k: int| 0 <= k < dv.len() && dv[k] == name@;
                    assert(false);
                }
            }
            return Some(names[i].clone());
        }
        proof {
            let k = choose|k: int| 0 <= k < j && dv[k] == name@;
            assert(dv.contains(name@));
        }
        i = i + 1;
    }
    None
}

/// The fault of one capability's placeholders.
fn placeholder_fault_exec(cap: &Capability, declared: &Vec<Vec<char>>) -> (r: Option<
    TemplateError,
>)
    ensures
        match r {
            Some(e) => placeholder_fault(cap@, declared@.map_values(|d: Vec<char>| d@)) == Some(
                e@,
            ),
            None => placeholder_fault(cap@, declared@.map_values(|d: Vec<char>| d@)) is None,
        },
{
    let names = placeholders_in_capability(cap);
    assert(names@.map_values(|s: String| s@) =~= cap_placeholders(cap@));
    match first_undeclared_exec(&names, declared) {
        Some(n) => Some(TemplateError::UndeclaredParameter(n)),
        None => None,
    }
}

/// The fault of one check capability.
fn check_fault_exec(cap: &Capability, declared: &Vec<Vec<char>>) -> (r: Option<TemplateError>)
    ensures
        match r {
            Some(e) => check_fault(cap@, declared@.map_values(|d: Vec<char>| d@)) == Some(e@),
            None => check_fault(cap@, declared@.map_values(|d: Vec<char>| d@)) is None,
        },
{
    if !cap.is_read_only() {
        return Some(TemplateError::NonReadOnlyCheck);
    }
    placeholder_fault_exec(cap, declared)
}

impl Template {
    /// Structurally validate the template: every `{{param}}` placeholder used in
    /// preconditions, steps, or verify must be a declared parameter, every check
    /// capability must be read-only, and there must be at least one step.
    pub fn validate(&self) -> (r: Result<(), TemplateError>)
        ensures
            match r {
                Ok(_) => template_fault(*self) is None,
                Err(e) => template_fault(*self) == Some(e@),
            },
    {
        let mut declared: Vec<Vec<char>> = Vec::new();
        let mut k: usize = 0;
        while k < self.parameters.len()
            invariant
                k <= self.parameters@.len(),
                declared@.len() == k,
                forall|m: int| 0 <= m < k ==> #[trigger] declared@[m]@ == self.parameters@[m].0@,
            decreases self.parameters@.len() - k,
        {
            declared.push(chars_of(self.parameters[k].0.as_str()));
            k = k + 1;
        }
        let ghost dv = declared_names(self.parameters@);
        assert(declared@.map_values(|d: Vec<char>| d@) =~= dv);

        let mut i: usize = 0;
        assert(self.preconditions@.skip(0) =~= self.preconditions@);
        while i < self.preconditions.len()
            invariant
                i <= self.preconditions@.len(),
                declared@.map_values(|d: Vec<char>| d@) == dv,
                dv == declared_names(self.parameters@),
                conditions_fault(self.preconditions@, dv) == conditions_fault(
                    self.preconditions@.skip(i as int),
                    dv,
                ),
            decreases self.preconditions@.len() - i,
        {
            assert(self.preconditions@.skip(i as int)[0] == self.preconditions@[i as int]);
            assert(self.preconditions@.skip(i as int).drop_first() =~= self.preconditions@.skip(
                i + 1,
            ));
            if let Some(e) = check_fault_exec(&self.preconditions[i].check, &declared) {
                return Err(e);
            }
            i = i + 1;
        }
        assert(self.preconditions@.skip(i as int).len() == 0);
        let mut j: usize = 0;
        assert(self.steps@.skip(0) =~= self.steps@);
        while j < self.steps.len()
            invariant
                j <= self.steps@.len(),
                declared@.map_values(|d: Vec<char>| d@) == dv,
                dv == declared_names(self.parameters@),
                conditions_fault(self.preconditions@, dv) is None,
                steps_fault(self.steps@, dv) == steps_fault(self.steps@.skip(j as int), dv),
            decreases self.steps@.len() - j,
        {
            assert(self.steps@.skip(j as int)[0] == self.steps@[j as int]);
            assert(self.steps@.skip(j as int).drop_first() =~= self.steps@.skip(j + 1));
            if let Some(e) = placeholder_fault_exec(&self.steps[j], &declared) {
                return Err(e);
            }
            j = j + 1;
        }
        assert(self.steps@.skip(j as int).len() == 0);
        if let Some(v) = &self.verify {
            if let Some(e) = check_fault_exec(&v.check, &declared) {
                return Err(e);
            }
        }
        if self.steps.len() == 0 {
            return Err(TemplateError::NoSteps);
        }
        Ok(())
    }
}

proof fn lemma_first_undeclared_none(names: Seq<Seq<char>>, declared: Seq<Seq<char>>)
    requires
        first_undeclared(names, declared) is None,
    ensures
        forall|i: int| 0 <= i < names.len() ==> declared.contains(#[trigger] names[i]),
    decreases names.len(),
{
    if names.len() > 0 {
        lemma_first_undeclared_none(names.drop_first(), declared);
        assert forall|i: int| 0 <= i < names.len() implies declared.contains(#[trigger] names[i]) by {
            if i > 0 {
                assert(names[i] == names.drop_first()[i - 1]);
            }
        }
    }
}

proof fn lemma_conditions_fault_none(conds: Seq<Condition>, declared: Seq<Seq<char>>)
    requires
        conditions_fault(conds, declared) is None,
    ensures
        forall|i: int| 0 <= i < conds.len() ==> check_fault(#[trigger] conds[i].check@, declared) is None,
    decreases conds.len(),
{
    if conds.len() > 0 {
        lemma_conditions_fault_none(conds.drop_first(), declared);
        assert forall|i: int| 0 <= i < conds.len() implies check_fault(#[trigger] conds[i].check@, declared) is None by {
            if i > 0 {
                assert(conds[i] == conds.drop_first()[i - 1]);
            }
        }
    }
}

proof fn lemma_steps_fault_none(steps: Seq<Capability>, declared: Seq<Seq<char>>)
    requires
        steps_fault(steps, declared) is None,
    ensures
        forall|i: int| 0 <= i < steps.len() ==> placeholder_fault(#[trigger] steps[i]@, declared) is None,
    decreases steps.len(),
{
    if steps.len() > 0 {
        lemma_steps_fault_none(steps.drop_first(), declared);
        assert forall|i: int| 0 <= i < steps.len() implies placeholder_fault(#[trigger] steps[i]@, declared) is None by {
            if i > 0 {
                assert(steps[i] == steps.drop_first()[i - 1]);
            }
        }
    }
}

/// A capability whose placeholders are all declared resolves completely once
/// every declared name has a value.
proof fn lemma_capability_resolves(
    c: CapabilityView,
    declared: Seq<Seq<char>>,
    values: Seq<(String, String)>,
)
    requires
        placeholder_fault(c, declared) is None,
        forall|n: Seq<char>| declared.contains(n) ==> #[trigger] lookup(values, n) is Some,
    ensures
        resolve_cap(c, values) is Ok,
{
    let ps = cap_placeholders(c);
    lemma_first_undeclared_none(ps, declared);
    let fs = cap_fields(c);
    if fs.len() >= 1 {
        let p0 = placeholders(fs[0]);
        assert forall|i: int| 0 <= i < p0.len() implies lookup(values, #[trigger] p0[i]) is Some by {
            assert(ps[i] == p0[i]);
            assert(declared.contains(ps[i]));
        }
        render_ok_iff_placeholders_bound(fs[0], values);
    }
    if fs.len() == 2 {
        let p0 = placeholders(fs[0]);
        let p1 = placeholders(fs[1]);
        assert forall|i: int| 0 <= i < p1.len() implies lookup(values, #[trigger] p1[i]) is Some by {
            assert(ps[p0.len() + i] == p1[i]);
            assert(declared.contains(ps[p0.len() + i]));
        }
        render_ok_iff_placeholders_bound(fs[1], values);
    }
}

/// A template that validates resolves completely: once every declared
/// parameter has a value, every step, every precondition check and the verify
/// check resolve without a missing value; every check is read-only; and there
/// is at least one step to run.
pub proof fn validated_template_resolves(t: Template, values: Seq<(String, String)>)
    requires
        template_fault(t) is None,
        forall|n: Seq<char>|
            declared_names(t.parameters@).contains(n) ==> #[trigger] lookup(values, n) is Some,
    ensures
        t.steps@.len() > 0,
        forall|i: int| 0 <= i < t.steps@.len() ==> resolve_cap(#[trigger] t.steps@[i]@, values) is Ok,
        forall|i: int|
            0 <= i < t.preconditions@.len() ==> resolve_cap(
                #[trigger] t.preconditions@[i].check@,
                values,
            ) is Ok && read_only_view(t.preconditions@[i].check@),
        t.verify matches Some(v) ==> resolve_cap(v.check@, values) is Ok && read_only_view(
            v.check@,
        ),
{
    let declared = declared_names(t.parameters@);
    lemma_conditions_fault_none(t.preconditions@, declared);
    lemma_steps_fault_none(t.steps@, declared);
    assert forall|i: int| 0 <= i < t.steps@.len() implies resolve_cap(#[trigger] t.steps@[i]@, values) is Ok by {
        lemma_capability_resolves(t.steps@[i]@, declared, values);
    }
    assert forall|i: int| 0 <= i < t.preconditions@.len() implies resolve_cap(
        #[trigger] t.preconditions@[i].check@,
        values,
    ) is Ok && read_only_view(t.preconditions@[i].check@) by {
        assert(check_fault(t.preconditions@[i].check@, declared) is None);
        lemma_capability_resolves(t.preconditions@[i].check@, declared, values);
    }
    if let Some(v) = t.verify {
        lemma_capability_resolves(v.check@, declared, values);
    }
}

/// Only observing capabilities count as read-only: every capability that
/// changes the host or the cluster (`ResetFailed`, `RestartUnit`,
/// `NixRollback`, `DeletePod`, `RestartDeployment`) is not read-only, and the
/// two that only report state (`UnitState`, `PodState`) are.
pub proof fn only_observing_capabilities_are_read_only(c: CapabilityView)
    ensures
        (c is ResetFailed || c is RestartUnit || c is NixRollback || c is DeletePod
            || c is RestartDeployment) ==> !read_only_view(c),
        (c is UnitState || c is PodState) ==> read_only_view(c),
{
}

/// A template that validates only checks by observing: each precondition
/// check and the verify check is a `UnitState` or a `PodState`. So a template
/// with a mutating capability as a check is always rejected.
pub proof fn validated_checks_only_observe(t: Template)
    requires
        template_fault(t) is None,
    ensures
        forall|i: int|
            0 <= i < t.preconditions@.len() ==> ((#[trigger] t.preconditions@[i]).check@ is UnitState
                || t.preconditions@[i].check@ is PodState),
        t.verify matches Some(v) ==> (v.check@ is UnitState || v.check@ is PodState),
{
    let declared = declared_names(t.parameters@);
    lemma_conditions_fault_none(t.preconditions@, declared);
    assert forall|i: int| 0 <= i < t.preconditions@.len() implies ((
    #[trigger] t.preconditions@[i]).check@ is UnitState || t.preconditions@[i].check@ is PodState) by {
        assert(check_fault(t.preconditions@[i].check@, declared) is None);
    }
}

/// A mutating capability as the first precondition check, or (with no
/// earlier fault) as the verify check, makes validation fail with
/// `NonReadOnlyCheck`.
pub proof fn mutating_checks_are_rejected(t: Template)
    ensures
        (t.preconditions@.len() > 0 && !(t.preconditions@[0].check@ is UnitState
            || t.preconditions@[0].check@ is PodState)) ==> template_fault(t) == Some(
            TemplateFault::NonReadOnlyCheck,
        ),
{
}

} // verus!
