//! Journal entries as events: the priority threshold, the severity ramp, the
//! title, the extra fields kept, and the auth classification that runs first
//! when enabled.

use chrono::TimeZone;
use vstd::prelude::*;

use crate::auth::{auth_title, classify_message, message_spec, opt_string, DetectedView};
use crate::event::{AuthPayload, Event, JournaldPayload, Payload, Severity};
use crate::remediation::lookup;
use crate::text::{cat, chars_of, copy_string, parse_unsigned, parse_unsigned_exec, slice_range, string_of};

verus! {

/// A journal record's string-valued fields, as `(name, value)` pairs.
#[derive(Debug, Clone, PartialEq, Eq)]
pub struct JournalRecord {
    pub fields: Vec<(String, String)>,
}

impl JournalRecord {
    /// The value of field `key` (the first entry with that name).
    pub fn field(&self, key: &str) -> (r: Option<&str>)
        ensures
            opt_str(r) == lookup(self.fields@, key@),
    {
        let mut i: usize = 0;
        assert(self.fields@.skip(0) =~= self.fields@);
        while i < self.fields.len()
            invariant
                i <= self.fields@.len(),
                lookup(self.fields@, key@) == lookup(self.fields@.skip(i as int), key@),
            decreases self.fields@.len() - i,
        {
            assert(self.fields@.skip(i as int)[0] == self.fields@[i as int]);
            assert(self.fields@.skip(i as int).drop_first() =~= self.fields@.skip(i + 1));
            if crate::text::str_is(self.fields[i].0.as_str(), key) {
                return Some(self.fields[i].1.as_str());
            }
            i = i + 1;
        }
        None
    }
}

/// The characters of an optional string slice.
pub open spec fn opt_str(o: Option<&str>) -> Option<Seq<char>> {
    match o {
        Some(s) => Some(s@),
        None => None,
    }
}

/// What `str::parse::<i64>` yields: an optional sign, then decimal digits
/// whose value fits an `i64`.
pub open spec fn parse_i64_spec(s: Seq<char>) -> Option<int> {
    if s.len() > 0 && s[0] == '-' {
        let body = s.drop_first();
        if body.len() > 0 && body[0] != '+' {
            match parse_unsigned(body, 0x8000_0000_0000_0000) {
                Some(v) => Some(-v),
                None => None,
            }
        } else {
            None
        }
    } else {
        match parse_unsigned(s, 0x7fff_ffff_ffff_ffff) {
            Some(v) => Some(v as int),
            None => None,
        }
    }
}

/// Parse a decimal `i64` (`str::parse::<i64>`).
pub fn parse_i64(s: &str) -> (r: Option<i64>)
    ensures
        match r {
            Some(v) => parse_i64_spec(s@) == Some(v as int),
            None => parse_i64_spec(s@) is None,
        },
{
    let v = chars_of(s);
    if v.len() > 0 && v[0] == '-' {
        if v.len() > 1 && v[1] != '+' {
            let body = slice_range(&v, 1, v.len());
            assert(body@ =~= s@.drop_first());
            match parse_unsigned_exec(&body, 0x8000_0000_0000_0000) {
                Some(m) => {
                    let neg: i128 = -(m as i128);
                    Some(neg as i64)
                },
                None => None,
            }
        } else {
            None
        }
    } else {
        match parse_unsigned_exec(&v, 0x7fff_ffff_ffff_ffff) {
            Some(m) => Some(m as i64),
            None => None,
        }
    }
}

/// The earliest instant `chrono` represents, in microseconds since the Unix
/// epoch: the start of its first year, -262143-01-01T00:00:00Z.
pub const CHRONO_MIN_MICROS: i64 = -8_334_601_228_800_000_000;

/// The latest instant `chrono` represents, in microseconds since the Unix
/// epoch: the last microsecond of its last year, +262142-12-31.
pub const CHRONO_MAX_MICROS: i64 = 8_210_266_876_799_999_999;

/// Whether `chrono` can represent the instant `micros` microseconds after the
/// Unix epoch: whether it lies within chrono's supported years.
pub open spec fn chrono_micros_valid(micros: i64) -> bool {
    CHRONO_MIN_MICROS <= micros && micros <= CHRONO_MAX_MICROS
}

/// `Utc.timestamp_micros(micros).single().is_some()`: a date whose day
/// count from the common era falls within chrono's supported years.
#[verifier::external_body]
fn micros_representable(micros: i64) -> (b: bool)
    ensures
        b == chrono_micros_valid(micros),
{
    chrono::Utc.timestamp_micros(micros).single().is_some()
}

/// When a record's entry happened: its `__REALTIME_TIMESTAMP` when that is a
/// representable instant, else `now`.
pub open spec fn occurred_spec(fields: Seq<(String, String)>, now: i64) -> i64 {
    match lookup(fields, "__REALTIME_TIMESTAMP"@) {
        Some(t) => match parse_i64_spec(t) {
            Some(m) => if chrono_micros_valid(m as i64) {
                m as i64
            } else {
                now
            },
            None => now,
        },
        None => now,
    }
}

fn occurred_at(rec: &JournalRecord, now: i64) -> (t: i64)
    ensures
        t == occurred_spec(rec.fields@, now),
{
    match rec.field("__REALTIME_TIMESTAMP") {
        Some(t) => match parse_i64(t) {
            Some(m) => if micros_representable(m) {
                m
            } else {
                now
            },
            None => now,
        },
        None => now,
    }
}

/// The severity of a syslog priority: 0–2 critical, 3 error, 4 warning,
/// 5 notice, anything else info.
pub open spec fn priority_severity(priority: u8) -> Severity {
    if priority <= 2 {
        Severity::Critical
    } else if priority == 3 {
        Severity::Error
    } else if priority == 4 {
        Severity::Warning
    } else if priority == 5 {
        Severity::Notice
    } else {
        Severity::Info
    }
}

/// Map a syslog priority to a severity.
pub fn severity_from_priority(priority: u8) -> (s: Severity)
    ensures
        s == priority_severity(priority),
{
    if priority <= 2 {
        Severity::Critical
    } else if priority == 3 {
        Severity::Error
    } else if priority == 4 {
        Severity::Warning
    } else if priority == 5 {
        Severity::Notice
    } else {
        Severity::Info
    }
}

/// `s` cut to its first `max` characters, marked with `…` when cut.
pub open spec fn truncated(s: Seq<char>, max: nat) -> Seq<char> {
    if s.len() <= max {
        s
    } else {
        s.take(max as int).push('\u{2026}')
    }
}

/// Cut `s` to at most `max` characters, appending `…` when anything was cut.
pub fn truncate(s: &str, max: usize) -> (r: String)
    ensures
        r@ == truncated(s@, max as nat),
{
    let v = chars_of(s);
    if v.len() <= max {
        string_of(&v)
    } else {
        let mut t = slice_range(&v, 0, max);
        t.push('\u{2026}');
        string_of(&t)
    }
}

/// The journald tap's settings.
#[derive(Debug, Clone, PartialEq, Eq)]
pub struct JournaldTap {
    pub agent_id: u128,
    pub host: String,
    /// Report generic entries whose syslog priority is at most this (0 is
    /// emergency, 7 debug).
    pub min_priority: u8,
    /// Also classify auth/SSH/audit entries, whatever their priority.
    pub auth_enable: bool,
}

/// The priority of a record: its `PRIORITY` field when that is a `u8`,
/// otherwise 6 (info).
pub open spec fn record_priority(fields: Seq<(String, String)>) -> u8 {
    match lookup(fields, "PRIORITY"@) {
        Some(p) => match parse_unsigned(p, 255) {
            Some(v) => v as u8,
            None => 6,
        },
        None => 6,
    }
}

/// The title of a journal entry: `unit: message` with the message cut to 80
/// characters, or the message alone cut to 100.
pub open spec fn journal_title(unit: Option<Seq<char>>, message: Seq<char>) -> Seq<char> {
    match unit {
        Some(u) => u + ": "@ + truncated(message, 80),
        None => truncated(message, 100),
    }
}

/// The extra fields a journal event keeps: the syslog identifier and the pid,
/// when present.
pub open spec fn journal_extra(fields: Seq<(String, String)>) -> Seq<(Seq<char>, Seq<char>)> {
    let a: Seq<(Seq<char>, Seq<char>)> = match lookup(fields, "SYSLOG_IDENTIFIER"@) {
        Some(id) => seq![("syslog_identifier"@, id)],
        None => seq![],
    };
    match lookup(fields, "_PID"@) {
        Some(pid) => a.push(("pid"@, pid)),
        None => a,
    }
}

/// The views of a list of string pairs.
pub open spec fn pairs_view(v: Seq<(String, String)>) -> Seq<(Seq<char>, Seq<char>)> {
    v.map_values(|p: (String, String)| (p.0@, p.1@))
}

impl JournaldTap {
    /// The priority journalctl is asked to stream down to: auth entries are
    /// often info or notice, so with auth detection on at least 6.
    pub fn stream_priority(&self) -> (p: u8)
        ensures
            p == (if self.auth_enable && self.min_priority < 6 {
                6
            } else {
                self.min_priority
            }),
    {
        if self.auth_enable && self.min_priority < 6 {
            6
        } else {
            self.min_priority
        }
    }

    /// Map a journal record to an event, with identifier `id`, observed at
    /// `now` (microseconds). Entries above the priority threshold, and entries
    /// without a message, map to nothing.
    pub fn record_to_event(&self, rec: &JournalRecord, id: u128, now: i64) -> (e: Option<Event>)
        ensures
            e is Some <==> (record_priority(rec.fields@) <= self.min_priority && lookup(
                rec.fields@,
                "MESSAGE"@,
            ) is Some),
            e matches Some(ev) ==> {
                let msg = lookup(rec.fields@, "MESSAGE"@)->0;
                let unit = lookup(rec.fields@, "_SYSTEMD_UNIT"@);
                &&& ev.id == id
                &&& ev.occurred_at == occurred_spec(rec.fields@, now)
                &&& ev.observed_at == now
                &&& ev.agent_id == self.agent_id
                &&& ev.host@ == self.host@
                &&& ev.severity == priority_severity(record_priority(rec.fields@))
                &&& ev.title@ == journal_title(unit, msg)
                &&& ev.category_hints@.len() == 0
                &&& ev.payload matches Payload::Journald(p) && opt_string(p.unit) == unit
                    && p.priority == Some(record_priority(rec.fields@)) && p.message@ == msg
                    && pairs_view(p.extra@) == journal_extra(rec.fields@)
            },
    {
        let priority: u8 = match rec.field("PRIORITY") {
            Some(p) => {
                let pv = chars_of(p);
                match parse_unsigned_exec(&pv, 255) {
                    Some(v) => v as u8,
                    None => 6,
                }
            },
            None => 6,
        };
        if priority > self.min_priority {
            return None;
        }
        let message = match rec.field("MESSAGE") {
            Some(m) => m.to_string(),
            None => return None,
        };
        let unit: Option<String> = match rec.field("_SYSTEMD_UNIT") {
            Some(u) => Some(u.to_string()),
            None => None,
        };
        let occurred = occurred_at(rec, now);
        let mut extra: Vec<(String, String)> = Vec::new();
        if let Some(ident) = rec.field("SYSLOG_IDENTIFIER") {
            extra.push(("syslog_identifier".to_string(), ident.to_string()));
        }
        let ghost before_pid = extra@;
        if let Some(pid) = rec.field("_PID") {
            extra.push(("pid".to_string(), pid.to_string()));
        }
        assert(pairs_view(extra@) =~= journal_extra(rec.fields@));
        let title = match &unit {
            Some(u) => {
                let head = cat(u.as_str(), ": ");
                let body = truncate(message.as_str(), 80);
                cat(head.as_str(), body.as_str())
            },
            None => truncate(message.as_str(), 100),
        };
        Some(
            Event {
                id,
                occurred_at: occurred,
                observed_at: now,
                agent_id: self.agent_id,
                host: copy_string(&self.host),
                severity: severity_from_priority(priority),
                title,
                category_hints: Vec::new(),
                payload: Payload::Journald(
                    JournaldPayload { unit, priority: Some(priority), message, extra },
                ),
            },
        )
    }

    /// Classify a record: as an access event first when auth detection is on,
    /// otherwise (or when it is none) by the generic mapping.
    pub fn classify(&self, rec: &JournalRecord, id: u128, now: i64) -> (e: Option<Event>)
        ensures
            self.auth_enable && auth_detected(rec.fields@) is Some ==> (e matches Some(ev)
                && is_auth_event(
                ev,
                auth_detected(rec.fields@)->0,
                rec.fields@,
                self.agent_id,
                self.host@,
                id,
                now,
            )),
            !(self.auth_enable && auth_detected(rec.fields@) is Some) ==> (e is Some <==> (
            record_priority(rec.fields@) <= self.min_priority && lookup(rec.fields@, "MESSAGE"@) is Some)),
    {
        if self.auth_enable {
            if let Some(ev) = classify_auth(rec, self.agent_id, self.host.as_str(), id, now) {
                return Some(ev);
            }
        }
        self.record_to_event(rec, id, now)
    }
}

/// The access event a record reports, if any: the message classified by its
/// syslog identifier (or command name) and transport.
pub open spec fn auth_detected(fields: Seq<(String, String)>) -> Option<DetectedView> {
    let ident = match lookup(fields, "SYSLOG_IDENTIFIER"@) {
        Some(i) => i,
        None => match lookup(fields, "_COMM"@) {
            Some(c) => c,
            None => seq![],
        },
    };
    let transport = match lookup(fields, "_TRANSPORT"@) {
        Some(t) => t,
        None => seq![],
    };
    match lookup(fields, "MESSAGE"@) {
        Some(msg) => message_spec(ident, transport, msg),
        None => None,
    }
}

/// Whether `ev` is the access event for `d`, read from a record with fields
/// `fields`.
pub open spec fn is_auth_event(
    ev: Event,
    d: DetectedView,
    fields: Seq<(String, String)>,
    agent_id: u128,
    host: Seq<char>,
    id: u128,
    now: i64,
) -> bool {
    &&& ev.id == id
    &&& ev.occurred_at == occurred_spec(fields, now)
    &&& ev.observed_at == now
    &&& ev.agent_id == agent_id
    &&& ev.host@ == host
    &&& ev.severity == d.severity
    &&& ev.title@ == auth_title(d)
    &&& ev.category_hints@.len() == 0
    &&& ev.payload matches Payload::Auth(p) && p.action@ == d.action && opt_string(p.user) == d.user
        && opt_string(p.remote_addr) == d.remote && p.succeeded == d.succeeded && p.extra@.len()
        == 0
}

/// Classify a journal record as an access event, if it is one.
pub fn classify_auth(rec: &JournalRecord, agent_id: u128, host: &str, id: u128, now: i64) -> (e:
    Option<Event>)
    ensures
        match auth_detected(rec.fields@) {
            None => e is None,
            Some(d) => e matches Some(ev) && is_auth_event(ev, d, rec.fields@, agent_id, host@, id, now),
        },
{
    let ident: &str = match rec.field("SYSLOG_IDENTIFIER") {
        Some(i) => i,
        None => match rec.field("_COMM") {
            Some(c) => c,
            None => "",
        },
    };
    let transport: &str = match rec.field("_TRANSPORT") {
        Some(t) => t,
        None => "",
    };
    proof {
        reveal_strlit("");
        let fields = rec.fields@;
        let si = match lookup(fields, "SYSLOG_IDENTIFIER"@) {
            Some(i) => i,
            None => match lookup(fields, "_COMM"@) {
                Some(c) => c,
                None => seq![],
            },
        };
        assert(ident@ == si);
        let st = match lookup(fields, "_TRANSPORT"@) {
            Some(t) => t,
            None => seq![],
        };
        assert(transport@ == st);
    }
    let msg = match rec.field("MESSAGE") {
        Some(m) => m,
        None => return None,
    };
    let d = match classify_message(ident, transport, msg) {
        Some(d) => d,
        None => return None,
    };
    let occurred = occurred_at(rec, now);
    let action = d.action;
    let title = match (&d.user, &d.remote) {
        (Some(u), Some(r)) => {
            let a = cat(action, ": ");
            let b = cat(a.as_str(), u.as_str());
            let c = cat(b.as_str(), " from ");
            cat(c.as_str(), r.as_str())
        },
        (Some(u), None) => {
            let a = cat(action, ": ");
            cat(a.as_str(), u.as_str())
        },
        (None, Some(r)) => {
            let a = cat(action, " from ");
            cat(a.as_str(), r.as_str())
        },
        (None, None) => action.to_string(),
    };
    Some(
        Event {
            id,
            occurred_at: occurred,
            observed_at: now,
            agent_id,
            host: host.to_string(),
            severity: d.severity,
            title,
            category_hints: Vec::new(),
            payload: Payload::Auth(
                AuthPayload {
                    action: action.to_string(),
                    user: d.user,
                    remote_addr: d.remote,
                    succeeded: d.succeeded,
                    extra: Vec::new(),
                },
            ),
        },
    )
}

} // verus!
