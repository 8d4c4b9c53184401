//! The agent's event pipeline decisions: which transport a server URL
//! selects, what becomes of each detected message (digest window, inference,
//! publish), the digest that summarises a window, and the startup event.

use vstd::prelude::*;

use crate::agent::{uuid_hyphenated, uuid_text};
use crate::event::{Event, Explanation, JournaldPayload, Message, Payload, Severity, Source};
use crate::text::{cat, chars_of, dec, dec_chars, push_chars, push_str_chars, starts_with, starts_with_exec, string_of};

verus! {

/// The transport a server URL selects.
#[derive(Debug, Clone, PartialEq, Eq)]
pub enum TransportKind {
    /// NATS, for `nats://` and `tls://` URLs.
    Nats,
    /// WebSocket, for `ws://` and `wss://` URLs.
    WebSocket,
}

/// The transport for `url`, or the error for an unsupported scheme.
pub open spec fn transport_for(url: Seq<char>) -> Result<bool, Seq<char>> {
    if starts_with(url, "nats://"@) || starts_with(url, "tls://"@) {
        Ok(true)
    } else if starts_with(url, "ws://"@) || starts_with(url, "wss://"@) {
        Ok(false)
    } else {
        Err("unsupported transport URL scheme: "@ + url)
    }
}

/// Pick the transport for a server URL by its scheme.
pub fn transport_kind(url: &str) -> (r: Result<TransportKind, String>)
    ensures
        match r {
            Ok(TransportKind::Nats) => transport_for(url@) == Ok::<bool, Seq<char>>(true),
            Ok(TransportKind::WebSocket) => transport_for(url@) == Ok::<bool, Seq<char>>(false),
            Err(e) => transport_for(url@) == Err::<bool, Seq<char>>(e@),
        },
{
    let v = chars_of(url);
    if starts_with_exec(&v, &chars_of("nats://")) || starts_with_exec(&v, &chars_of("tls://")) {
        Ok(TransportKind::Nats)
    } else if starts_with_exec(&v, &chars_of("ws://")) || starts_with_exec(&v, &chars_of("wss://")) {
        Ok(TransportKind::WebSocket)
    } else {
        Err(cat("unsupported transport URL scheme: ", url))
    }
}

/// The NATS subjects an agent publishes its messages and heartbeats on.
pub fn nats_subjects(agent_id: u128) -> (r: (String, String))
    ensures
        r.0@ == "ravn.messages."@ + uuid_hyphenated(agent_id),
        r.1@ == "ravn.heartbeat."@ + uuid_hyphenated(agent_id),
{
    let id = uuid_text(agent_id);
    (cat("ravn.messages.", id.as_str()), cat("ravn.heartbeat.", id.as_str()))
}

/// What the detection loop does with a message.
#[derive(Debug, Clone, PartialEq, Eq)]
pub enum MessageRoute {
    /// Digest mode: add the event to the window (it is still published).
    Accumulate,
    /// Digest mode, but the event is below the digest's threshold or the
    /// window is full: publish it as it is.
    PublishOnly,
    /// Ask the model to explain the event, then publish.
    Explain,
}

/// The route of a message: in digest mode an event at least as severe as the
/// threshold joins a window that is not full; without digest mode an
/// unexplained event is explained when inference is on.
pub open spec fn message_route(
    digest: bool,
    inference: bool,
    severity: Severity,
    min_severity: Severity,
    window: nat,
    max_window: nat,
    explained: bool,
) -> int {
    if digest {
        if severity.spec_rank() >= min_severity.spec_rank() && window < max_window {
            0
        } else {
            1
        }
    } else if inference && !explained {
        2
    } else {
        1
    }
}

/// The [`message_route`] number of a route.
pub open spec fn route_number(r: MessageRoute) -> int {
    match r {
        MessageRoute::Accumulate => 0,
        MessageRoute::PublishOnly => 1,
        MessageRoute::Explain => 2,
    }
}

/// Decide what becomes of a message before it is published.
pub fn route_message(
    digest: bool,
    inference: bool,
    message: &Message,
    min_severity: Severity,
    window: usize,
    max_window: usize,
) -> (r: MessageRoute)
    ensures
        route_number(r) == message_route(
            digest,
            inference,
            message.event.severity,
            min_severity,
            window as nat,
            max_window as nat,
            message.explanation is Some,
        ),
{
    if digest {
        if message.event.severity.rank() >= min_severity.rank() && window < max_window {
            MessageRoute::Accumulate
        } else {
            MessageRoute::PublishOnly
        }
    } else if inference && message.explanation.is_none() {
        MessageRoute::Explain
    } else {
        MessageRoute::PublishOnly
    }
}

/// The sources in the order of their names.
pub open spec fn sources_by_name() -> Seq<Source> {
    seq![
        Source::Auth,
        Source::ConfigDrift,
        Source::FailedUnit,
        Source::Journald,
        Source::KubeNode,
        Source::KubeWorkload,
        Source::RavnInternal,
        Source::Update,
    ]
}

/// How many of `events` came from `source`.
pub open spec fn count_from(events: Seq<Event>, source: Source) -> nat
    decreases events.len(),
{
    if events.len() == 0 {
        0
    } else {
        count_from(events.drop_last(), source) + (if events.last().payload.spec_source() == source {
            1nat
        } else {
            0nat
        })
    }
}

/// The `name=count` parts of a digest summary, for the sources of `order`
/// that occur, joined by `, ` after `lead`.
pub open spec fn summary_from(events: Seq<Event>, order: Seq<Source>, lead: Seq<char>) -> Seq<char>
    decreases order.len(),
{
    if order.len() == 0 {
        lead
    } else {
        let before = summary_from(events, order.drop_last(), lead);
        let n = count_from(events, order.last());
        if n == 0 {
            before
        } else {
            (if before.len() == 0 {
                before
            } else {
                before + ", "@
            }) + order.last().spec_name() + "="@ + dec(n)
        }
    }
}

/// The digest summary of a window: `Name=count` for each source that occurs,
/// in name order, joined by `, `.
pub open spec fn digest_summary(events: Seq<Event>) -> Seq<char> {
    summary_from(events, sources_by_name(), seq![])
}

/// The most severe severity among `events`, `Notice` when there are none.
pub open spec fn window_severity(events: Seq<Event>) -> Severity
    decreases events.len(),
{
    if events.len() == 0 {
        Severity::Notice
    } else if events.len() == 1 {
        events[0].severity
    } else {
        let rest = window_severity(events.drop_last());
        if events.last().severity.spec_rank() >= rest.spec_rank() {
            events.last().severity
        } else {
            rest
        }
    }
}

fn count_source(events: &Vec<Event>, source: Source) -> (n: u64)
    requires
        events@.len() <= u64::MAX,
    ensures
        n == count_from(events@, source),
{
    let mut n: u64 = 0;
    let mut i: usize = 0;
    while i < events.len()
        invariant
            i <= events@.len() <= u64::MAX,
            n == count_from(events@.take(i as int), source),
            n <= i,
        decreases events@.len() - i,
    {
        assert(events@.take(i + 1).drop_last() =~= events@.take(i as int));
        assert(events@.take(i + 1).last() == events@[i as int]);
        if events[i].payload.source() == source {
            n = n + 1;
        }
        i = i + 1;
    }
    assert(events@.take(i as int) =~= events@);
    n
}

fn summary_exec(events: &Vec<Event>) -> (s: Vec<char>)
    requires
        events@.len() <= u64::MAX,
    ensures
        s@ == digest_summary(events@),
{
    let order = [
        Source::Auth,
        Source::ConfigDrift,
        Source::FailedUnit,
        Source::Journald,
        Source::KubeNode,
        Source::KubeWorkload,
        Source::RavnInternal,
        Source::Update,
    ];
    let ghost ord = sources_by_name();
    assert(order@ =~= ord);
    let mut out: Vec<char> = Vec::new();
    let mut k: usize = 0;
    while k < 8
        invariant
            k <= 8,
            order@ == ord,
            events@.len() <= u64::MAX,
            out@ == summary_from(events@, ord.take(k as int), seq![]),
        decreases 8 - k,
    {
        assert(ord.take(k + 1).drop_last() =~= ord.take(k as int));
        assert(ord.take(k + 1).last() == ord[k as int]);
        let src = order[k];
        let n = count_source(events, src);
        if n > 0 {
            if out.len() > 0 {
                push_str_chars(&mut out, ", ");
            }
            push_str_chars(&mut out, src.name());
            push_str_chars(&mut out, "=");
            let d = dec_chars(n);
            push_chars(&mut out, &d);
        }
        k = k + 1;
    }
    assert(ord.take(8) =~= ord);
    out
}

fn window_severity_exec(events: &Vec<Event>) -> (s: Severity)
    ensures
        s == window_severity(events@),
{
    if events.len() == 0 {
        return Severity::Notice;
    }
    let mut best = events[0].severity;
    let mut i: usize = 1;
    assert(events@.take(1).len() == 1);
    while i < events.len()
        invariant
            1 <= i <= events@.len(),
            best == window_severity(events@.take(i as int)),
        decreases events@.len() - i,
    {
        assert(events@.take(i + 1).drop_last() =~= events@.take(i as int));
        assert(events@.take(i + 1).last() == events@[i as int]);
        if events[i].severity.rank() >= best.rank() {
            best = events[i].severity;
        }
        i = i + 1;
    }
    assert(events@.take(i as int) =~= events@);
    best
}

/// The digest message for a window of events, with identifier `id` at
/// `now` (microseconds), carrying the model's explanation of the window.
pub fn build_digest_message(
    agent_id: u128,
    host: &str,
    events: &Vec<Event>,
    explanation: Option<Explanation>,
    id: u128,
    now: i64,
) -> (m: Message)
    requires
        events@.len() <= u64::MAX,
    ensures
        m.event.id == id,
        m.event.occurred_at == now,
        m.event.observed_at == now,
        m.event.agent_id == agent_id,
        m.event.host@ == host@,
        m.event.severity == window_severity(events@),
        m.event.title@ == "Digest: "@ + dec(events@.len()) + " events ("@ + digest_summary(events@)
            + ")"@,
        m.event.category_hints@.len() == 1,
        m.event.category_hints@[0]@ == "digest"@,
        m.event.payload matches Payload::Journald(p) && p.unit matches Some(u) && u@ == "ravn-digest"@
            && p.priority is None && p.message@ == "Periodic digest of "@ + dec(events@.len())
            + " events \u{2014} "@ + digest_summary(events@) && p.extra@.len() == 0,
        m.explanation == explanation,
{
    let summary = summary_exec(events);
    let count = dec_chars(events.len() as u64);
    let mut title: Vec<char> = Vec::new();
    push_str_chars(&mut title, "Digest: ");
    push_chars(&mut title, &count);
    push_str_chars(&mut title, " events (");
    push_chars(&mut title, &summary);
    push_str_chars(&mut title, ")");
    let mut text: Vec<char> = Vec::new();
    push_str_chars(&mut text, "Periodic digest of ");
    push_chars(&mut text, &count);
    push_str_chars(&mut text, " events \u{2014} ");
    push_chars(&mut text, &summary);
    let mut hints: Vec<String> = Vec::new();
    hints.push("digest".to_string());
    let event = Event {
        id,
        occurred_at: now,
        observed_at: now,
        agent_id,
        host: host.to_string(),
        severity: window_severity_exec(events),
        title: string_of(&title),
        category_hints: hints,
        payload: Payload::Journald(
            JournaldPayload {
                unit: Some("ravn-digest".to_string()),
                priority: None,
                message: string_of(&text),
                extra: Vec::new(),
            },
        ),
    };
    Message { event, explanation }
}

/// The message announcing that the agent of version `version` started on
/// `host`, with identifier `id` at `now` (microseconds).
pub fn startup_message(agent_id: u128, host: &str, version: &str, id: u128, now: i64) -> (m: Message)
    ensures
        m.event.id == id,
        m.event.occurred_at == now,
        m.event.observed_at == now,
        m.event.agent_id == agent_id,
        m.event.host@ == host@,
        m.event.severity == Severity::Info,
        m.event.title@ == "ravnd "@ + version@ + " started"@,
        m.event.category_hints@.len() == 0,
        m.event.payload matches Payload::Journald(p) && p.unit matches Some(u) && u@ == "ravnd.service"@
            && p.priority == Some(6u8) && p.message@ == "ravnd "@ + version@ + " started on "@ + host@
            && p.extra@.len() == 0,
        m.explanation is None,
{
    let a = cat("ravnd ", version);
    let title = cat(a.as_str(), " started");
    let b = cat(a.as_str(), " started on ");
    let text = cat(b.as_str(), host);
    Message::new(
        Event {
            id,
            occurred_at: now,
            observed_at: now,
            agent_id,
            host: host.to_string(),
            severity: Severity::Info,
            title,
            category_hints: Vec::new(),
            payload: Payload::Journald(
                JournaldPayload {
                    unit: Some("ravnd.service".to_string()),
                    priority: Some(6),
                    message: text,
                    extra: Vec::new(),
                },
            ),
        },
    )
}

/// A digest reports the most severe event of its window: no event in the
/// window is more severe than the digest.
pub proof fn digest_severity_is_the_window_maximum(events: Seq<Event>)
    ensures
        forall|i: int|
            0 <= i < events.len() ==> (#[trigger] events[i]).severity.spec_rank() <= window_severity(
                events,
            ).spec_rank(),
        events.len() > 0 ==> exists|i: int|
            0 <= i < events.len() && (#[trigger] events[i]).severity == window_severity(events),
    decreases events.len(),
{
    if events.len() > 1 {
        let init = events.drop_last();
        digest_severity_is_the_window_maximum(init);
        assert forall|i: int| 0 <= i < events.len() implies (#[trigger] events[i]).severity.spec_rank()
            <= window_severity(events).spec_rank() by {
            if i < init.len() {
                assert(events[i] == init[i]);
            }
        }
        if events.last().severity.spec_rank() >= window_severity(init).spec_rank() {
            assert(events[events.len() - 1] == events.last());
        } else {
            let j = choose|j: int| 0 <= j < init.len() && (#[trigger] init[j]).severity == window_severity(init);
            assert(events[j] == init[j]);
        }
    } else if events.len() == 1 {
        assert(events[0].severity == window_severity(events));
    }
}

/// How many times the WebSocket transport tries to connect before giving up.
pub const WS_CONNECT_ATTEMPTS: u32 = 5;

/// The wait before the first WebSocket reconnection attempt, in milliseconds.
pub const WS_FIRST_RETRY_MS: u64 = 200;

/// The longest wait between WebSocket connection attempts, in milliseconds.
pub const WS_MAX_RETRY_MS: u64 = 5000;

/// The wait after one of `delay_ms` before the next connection attempt: it
/// doubles, up to [`WS_MAX_RETRY_MS`].
pub fn next_retry_ms(delay_ms: u64) -> (r: u64)
    ensures
        r == (if 2 * delay_ms < WS_MAX_RETRY_MS {
            2 * delay_ms
        } else {
            WS_MAX_RETRY_MS as int
        }),
{
    if delay_ms < WS_MAX_RETRY_MS / 2 {
        delay_ms * 2
    } else {
        WS_MAX_RETRY_MS
    }
}

} // verus!
