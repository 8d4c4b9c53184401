//! Update detection on NixOS: the generation number a system-profile link
//! names, the closure-diff lines kept, and the event for a generation change.

use vstd::prelude::*;

use crate::event::{Event, Payload, Severity, UpdatePayload};
use crate::text::{
    chars_of, copy_string, dec, dec_chars, ends_with, ends_with_exec, last_index_of,
    last_index_of_exec, opt_chars, parse_unsigned, parse_unsigned_exec, push_chars, push_str_chars, slice_range,
    string_of, trim, trim_chars,
};

verus! {

/// The generation a profile link name carries: `<name>-<N>-link` gives `N`
/// (the text after the last `-` before the `-link` suffix, as a `u64`).
pub open spec fn generation_of(target: Seq<char>) -> Option<nat> {
    if !ends_with(target, "-link"@) {
        None
    } else {
        let stem = target.take(target.len() - 5);
        let last = match last_index_of(stem, '-') {
            Some(i) => stem.skip(i + 1),
            None => stem,
        };
        parse_unsigned(last, u64::MAX as nat)
    }
}

/// `system-142-link` gives `142`. Works for any `<name>-<N>-link`.
pub fn parse_generation(target: &str) -> (r: Option<u64>)
    ensures
        match r {
            Some(g) => generation_of(target@) == Some(g as nat),
            None => generation_of(target@) is None,
        },
{
    proof {
        reveal_strlit("-link");
    }
    let v = chars_of(target);
    let suffix = chars_of("-link");
    if !ends_with_exec(&v, &suffix) {
        return None;
    }
    let stem = slice_range(&v, 0, v.len() - 5);
    assert(stem@ =~= target@.take(target@.len() - 5));
    let last = match last_index_of_exec(&stem, '-') {
        Some(i) => {
            proof {
                lemma_last_index_bound(stem@, '-');
            }
            slice_range(&stem, i + 1, stem.len())
        },
        None => slice_range(&stem, 0, stem.len()),
    };
    proof {
        if last_index_of(stem@, '-') is Some {
            let i = last_index_of(stem@, '-')->0;
            assert(last@ =~= stem@.skip(i + 1));
        } else {
            assert(last@ =~= stem@);
        }
    }
    parse_unsigned_exec(&last, u64::MAX)
}

proof fn lemma_last_index_bound(s: Seq<char>, c: char)
    ensures
        last_index_of(s, c) matches Some(i) ==> 0 <= i < s.len(),
{
    crate::text::lemma_last_index_bounds(s, c, s.len() as int);
}

/// The lines of a closure diff kept on the event: the non-blank ones, at most
/// the first fifty.
pub open spec fn kept_changes(lines: Seq<String>) -> Seq<Seq<char>>
    decreases lines.len(),
{
    if lines.len() == 0 {
        seq![]
    } else {
        let rest = kept_changes(lines.drop_last());
        if trim(lines.last()@).len() > 0 && rest.len() < 50 {
            rest.push(lines.last()@)
        } else {
            rest
        }
    }
}

/// Keep the non-blank lines of a closure diff, at most fifty.
pub fn closure_changes(lines: &Vec<String>) -> (kept: Vec<String>)
    ensures
        kept@.map_values(|l: String| l@) == kept_changes(lines@),
{
    let mut kept: Vec<String> = Vec::new();
    let mut i: usize = 0;
    while i < lines.len()
        invariant
            i <= lines@.len(),
            kept@.map_values(|l: String| l@) == kept_changes(lines@.take(i as int)),
        decreases lines@.len() - i,
    {
        let ghost before = kept@;
        assert(lines@.take(i + 1).drop_last() =~= lines@.take(i as int));
        assert(lines@.take(i + 1).last() == lines@[i as int]);
        let v = chars_of(lines[i].as_str());
        let t = trim_chars(&v);
        if t.len() > 0 && kept.len() < 50 {
            kept.push(copy_string(&lines[i]));
            assert(kept@.map_values(|l: String| l@) =~= before.map_values(|l: String| l@).push(
                lines@[i as int]@,
            ));
        }
        i = i + 1;
    }
    assert(lines@.take(i as int) =~= lines@);
    kept
}

/// The update tap's settings. Times are milliseconds.
#[derive(Debug, Clone, PartialEq, Eq)]
pub struct UpdateTap {
    pub agent_id: u128,
    pub host: String,
    /// The system profile symlink (by default `/nix/var/nix/profiles/system`).
    pub profile: String,
    pub poll_interval_ms: u64,
}

/// The title of a generation change.
pub open spec fn update_title(from: u64, to: u64) -> Seq<char> {
    "system updated: generation "@ + dec(from as nat) + " \u{2192} "@ + dec(to as nat)
}

impl UpdateTap {
    /// The event for a change from generation `from` to `to` with the closure
    /// diff lines `changes`; `id` and `now` (microseconds) are the event's
    /// identifier and time.
    pub fn build_event(&self, from: u64, to: u64, changes: Vec<String>, id: u128, now: i64) -> (e:
        Event)
        ensures
            e.id == id,
            e.occurred_at == now,
            e.observed_at == now,
            e.agent_id == self.agent_id,
            e.host@ == self.host@,
            e.severity == Severity::Notice,
            e.title@ == update_title(from, to),
            e.category_hints@.len() == 0,
            e.payload matches Payload::Update(p) && p.mechanism@ == "nixos"@ && opt_chars(p.from)
                == Some(dec(from as nat)) && opt_chars(p.to) == Some(dec(to as nat)) && p.changes
                == changes && p.extra@.len() == 0,
    {
        let mut title: Vec<char> = Vec::new();
        push_str_chars(&mut title, "system updated: generation ");
        let f = dec_chars(from);
        push_chars(&mut title, &f);
        push_str_chars(&mut title, " \u{2192} ");
        let t = dec_chars(to);
        push_chars(&mut title, &t);
        Event {
            id,
            occurred_at: now,
            observed_at: now,
            agent_id: self.agent_id,
            host: copy_string(&self.host),
            severity: Severity::Notice,
            title: string_of(&title),
            category_hints: Vec::new(),
            payload: Payload::Update(
                UpdatePayload {
                    mechanism: "nixos".to_string(),
                    from: Some(string_of(&f)),
                    to: Some(string_of(&t)),
                    changes,
                    extra: Vec::new(),
                },
            ),
        }
    }
}

} // verus!
