//! Local-inference plumbing that is pure: the prompt built from an event, and
//! how a model's reply becomes an explanation and an optional check.

use vstd::prelude::*;
use vstd::string::StringSliceAdditionalSpecFns;
use vstd::utf8::{encode_utf8, is_char_boundary};

use crate::event::{Event, Explanation, Payload};
use crate::text::{
    cat, chars_of, copy_string, dec, debug_str, debug_quoted, find, find_exec, last_index_of,
    last_index_of_exec, lemma_find_bounds, lemma_last_index_bounds, opt_chars, push_chars,
    push_str_chars, slice_range, string_of, trim, trim_chars,
};

verus! {

/// The system prompt sent with every explanation request.
pub const SYSTEM_PROMPT: &'static str = "You are Ravn, a Linux operations assistant. Given a \
flagged system event, explain in 2-3 plain sentences what most likely happened \
and why it matters, then suggest ONE concrete command or check an operator can \
run. Be factual and concise; do not invent details not supported by the event. \
Respond ONLY as a JSON object: {\"explanation\": string, \"suggested_check\": string}.";

/// Each of `lines` as an indented prompt line.
pub open spec fn indented(lines: Seq<String>) -> Seq<char>
    decreases lines.len(),
{
    if lines.len() == 0 {
        seq![]
    } else {
        indented(lines.drop_last()) + "  "@ + lines.last()@ + "\n"@
    }
}

/// The first `n` lines (all of them when there are fewer).
pub open spec fn first_lines(lines: Seq<String>, n: nat) -> Seq<String> {
    if lines.len() <= n {
        lines
    } else {
        lines.take(n as int)
    }
}

/// How `{:?}` shows an optional string.
pub open spec fn debug_opt(o: Option<String>) -> Seq<char> {
    match o {
        Some(s) => "Some("@ + debug_str(s@) + ")"@,
        None => "None"@,
    }
}

/// The prompt lines every event gets.
pub open spec fn prompt_head(e: Event) -> Seq<char> {
    "Severity: "@ + e.severity.spec_name() + "\nSource: "@ + e.payload.spec_source().spec_name()
        + "\nHost: "@ + e.host@ + "\nTitle: "@ + e.title@ + "\n"@
}

/// The payload's prompt lines, with `cut` standing for the (possibly cut)
/// diff of a config-drift event.
pub open spec fn prompt_body(e: Event, cut: Seq<char>) -> Seq<char> {
    match e.payload {
        Payload::Journald(p) => (match p.unit {
            Some(u) => "Unit: "@ + u@ + "\n"@,
            None => ""@,
        }) + "Message: "@ + p.message@ + "\n"@,
        Payload::FailedUnit(p) => "Failed unit: "@ + p.unit@ + " (result: "@ + p.result@ + ")\n"@
            + (if p.recent_log@.len() == 0 {
            ""@
        } else {
            "Recent log:\n"@ + indented(first_lines(p.recent_log@, 10))
        }),
        Payload::ConfigDrift(p) => "Changed file: "@ + p.path@ + "\n"@ + (match p.diff {
            Some(_) => "Diff:\n"@ + cut + "\n"@,
            None => ""@,
        }),
        Payload::Auth(p) => "Action: "@ + p.action@ + " (succeeded: "@ + (if p.succeeded {
            "true"@
        } else {
            "false"@
        }) + ")\n"@ + (match p.user {
            Some(u) => "User: "@ + u@ + "\n"@,
            None => ""@,
        }) + (match p.remote_addr {
            Some(r) => "Remote: "@ + r@ + "\n"@,
            None => ""@,
        }),
        Payload::Update(p) => "Update via "@ + p.mechanism@ + ": "@ + debug_opt(p.from) + " -> "@
            + debug_opt(p.to) + "\n"@ + (if p.changes@.len() == 0 {
            ""@
        } else {
            "Changes:\n"@ + indented(first_lines(p.changes@, 20))
        }),
        Payload::KubeWorkload(_) => ""@,
        Payload::KubeNode(_) => ""@,
    }
}

/// Whether `cut` is the diff `d` cut to its first 1500 bytes (marked with
/// `…`), or `d` itself when it is no longer.
pub open spec fn cut_diff(d: Seq<char>, cut: Seq<char>) -> bool {
    &&& encode_utf8(d).len() <= 1500 ==> cut == d
    &&& encode_utf8(d).len() > 1500 ==> exists|h: Seq<char>|
        encode_utf8(h) == encode_utf8(d).take(1500) && cut == h.push('\u{2026}')
}

/// Whether a config-drift diff longer than 1500 bytes has a character
/// boundary at byte 1500 (where the prompt cuts it).
pub open spec fn diff_cuttable(e: Event) -> bool {
    e.payload matches Payload::ConfigDrift(p) && p.diff matches Some(d) ==> (encode_utf8(d@).len()
        > 1500 ==> is_char_boundary(encode_utf8(d@), 1500))
}

fn push_lines(out: &mut Vec<char>, lines: &Vec<String>, n: usize)
    ensures
        final(out)@ == old(out)@ + indented(first_lines(lines@, n as nat)),
{
    let ghost start = out@;
    let m = if lines.len() <= n {
        lines.len()
    } else {
        n
    };
    let ghost firsts = first_lines(lines@, n as nat);
    assert(firsts =~= lines@.take(m as int));
    let mut i: usize = 0;
    while i < m
        invariant
            i <= m <= lines@.len(),
            firsts == lines@.take(m as int),
            out@ == start + indented(lines@.take(i as int)),
        decreases m - i,
    {
        assert(lines@.take(i + 1).drop_last() =~= lines@.take(i as int));
        assert(lines@.take(i + 1).last() == lines@[i as int]);
        push_str_chars(out, "  ");
        push_str_chars(out, lines[i].as_str());
        push_str_chars(out, "\n");
        assert(out@ =~= start + indented(lines@.take(i + 1)));
        i = i + 1;
    }
}

fn debug_opt_exec(o: &Option<String>) -> (r: String)
    ensures
        r@ == debug_opt(*o),
{
    match o {
        Some(s) => {
            let d = debug_quoted(s.as_str());
            let a = cat("Some(", d.as_str());
            cat(a.as_str(), ")")
        },
        None => "None".to_string(),
    }
}

/// The user prompt describing `event` to the model.
pub fn build_user_prompt(event: &Event) -> (p: String)
    requires
        diff_cuttable(*event),
    ensures
        exists|cut: Seq<char>|
            p@ == prompt_head(*event) + prompt_body(*event, cut) && (event.payload matches Payload::ConfigDrift(
                d,
            ) && d.diff matches Some(x) ==> cut_diff(x@, cut)),
{
    let mut s: Vec<char> = Vec::new();
    push_str_chars(&mut s, "Severity: ");
    push_str_chars(&mut s, event.severity.name());
    push_str_chars(&mut s, "\nSource: ");
    push_str_chars(&mut s, event.source().name());
    push_str_chars(&mut s, "\nHost: ");
    push_str_chars(&mut s, event.host.as_str());
    push_str_chars(&mut s, "\nTitle: ");
    push_str_chars(&mut s, event.title.as_str());
    push_str_chars(&mut s, "\n");
    let ghost head = s@;
    assert(head =~= prompt_head(*event));
    let ghost mut cut: Seq<char> = seq![];
    proof {
        reveal_strlit("");
    }
    match &event.payload {
        Payload::Journald(p) => {
            if let Some(u) = &p.unit {
                push_str_chars(&mut s, "Unit: ");
                push_str_chars(&mut s, u.as_str());
                push_str_chars(&mut s, "\n");
            }
            push_str_chars(&mut s, "Message: ");
            push_str_chars(&mut s, p.message.as_str());
            push_str_chars(&mut s, "\n");
            assert(s@ =~= head + prompt_body(*event, cut));
        },
        Payload::FailedUnit(p) => {
            push_str_chars(&mut s, "Failed unit: ");
            push_str_chars(&mut s, p.unit.as_str());
            push_str_chars(&mut s, " (result: ");
            push_str_chars(&mut s, p.result.as_str());
            push_str_chars(&mut s, ")\n");
            let ghost mid = s@;
            if p.recent_log.len() > 0 {
                push_str_chars(&mut s, "Recent log:\n");
                push_lines(&mut s, &p.recent_log, 10);
            }
            assert(s@ =~= head + prompt_body(*event, cut));
        },
        Payload::ConfigDrift(p) => {
            push_str_chars(&mut s, "Changed file: ");
            push_str_chars(&mut s, p.path.as_str());
            push_str_chars(&mut s, "\n");
            if let Some(diff) = &p.diff {
                push_str_chars(&mut s, "Diff:\n");
                let t = crate::mcp::truncate(diff.as_str(), 1500);
                proof {
                    cut = t@;
                }
                push_str_chars(&mut s, t.as_str());
                push_str_chars(&mut s, "\n");
            }
            assert(s@ =~= head + prompt_body(*event, cut));
        },
        Payload::Auth(p) => {
            push_str_chars(&mut s, "Action: ");
            push_str_chars(&mut s, p.action.as_str());
            push_str_chars(&mut s, " (succeeded: ");
            push_str_chars(
                &mut s,
                if p.succeeded {
                    "true"
                } else {
                    "false"
                },
            );
            push_str_chars(&mut s, ")\n");
            if let Some(u) = &p.user {
                push_str_chars(&mut s, "User: ");
                push_str_chars(&mut s, u.as_str());
                push_str_chars(&mut s, "\n");
            }
            if let Some(r) = &p.remote_addr {
                push_str_chars(&mut s, "Remote: ");
                push_str_chars(&mut s, r.as_str());
                push_str_chars(&mut s, "\n");
            }
            assert(s@ =~= head + prompt_body(*event, cut));
        },
        Payload::Update(p) => {
            push_str_chars(&mut s, "Update via ");
            push_str_chars(&mut s, p.mechanism.as_str());
            push_str_chars(&mut s, ": ");
            let f = debug_opt_exec(&p.from);
            push_str_chars(&mut s, f.as_str());
            push_str_chars(&mut s, " -> ");
            let t = debug_opt_exec(&p.to);
            push_str_chars(&mut s, t.as_str());
            push_str_chars(&mut s, "\n");
            if p.changes.len() > 0 {
                push_str_chars(&mut s, "Changes:\n");
                push_lines(&mut s, &p.changes, 20);
            }
            assert(s@ =~= head + prompt_body(*event, cut));
        },
        Payload::KubeWorkload(_) => {
            assert(s@ =~= head + prompt_body(*event, cut));
        },
        Payload::KubeNode(_) => {
            assert(s@ =~= head + prompt_body(*event, cut));
        },
    }
    string_of(&s)
}

/// The string value of member `key` when `text` parses as a JSON object that
/// has that member holding a string; `None` otherwise (not JSON, not an
/// object, no such member, or a member of another type).
pub uninterp spec fn json_string_member(text: Seq<char>, key: Seq<char>) -> Option<Seq<char>>;

/// `serde_json::from_str` of `text` as a JSON value, then the string held by
/// its member `key`.
#[verifier::external_body]
fn json_member(text: &str, key: &str) -> (r: Option<String>)
    ensures
        opt_chars(r) == json_string_member(text@, key@),
{
    let v: serde_json::Value = serde_json::from_str(text).ok()?;
    match v.get(key) {
        Some(serde_json::Value::String(s)) => Some(s.clone()),
        _ => None,
    }
}

/// The explanation and check that a reply's `explanation` and
/// `suggested_check` members give: it needs an `explanation` (trimmed); a
/// check is kept when, trimmed, it is not empty.
pub open spec fn extracted(explanation: Option<Seq<char>>, check: Option<Seq<char>>) -> Option<
    (Seq<char>, Option<Seq<char>>),
> {
    match explanation {
        Some(e) => Some(
            (
                trim(e),
                match check {
                    Some(x) => if trim(x).len() > 0 {
                        Some(trim(x))
                    } else {
                        None
                    },
                    None => None,
                },
            ),
        ),
        None => None,
    }
}

/// What a reply's text gives when read as a JSON object with the members
/// named in the system prompt.
pub open spec fn reply_json(text: Seq<char>) -> Option<(Seq<char>, Option<Seq<char>>)> {
    extracted(
        json_string_member(text, "explanation"@),
        json_string_member(text, "suggested_check"@),
    )
}

/// The explanation a model's reply gives: the whole reply as JSON, else the
/// text from its first `{` to its last `}` as JSON, else the reply itself
/// (trimmed) with no check.
pub open spec fn reply_explanation(content: Seq<char>) -> (Seq<char>, Option<Seq<char>>) {
    match reply_json(content) {
        Some(p) => p,
        None => {
            let fallback = (trim(content), None::<Seq<char>>);
            match (find(content, seq!['{']), last_index_of(content, '}')) {
                (Some(s), Some(e)) => if e > s {
                    match reply_json(content.subrange(s, e + 1)) {
                        Some(p) => p,
                        None => fallback,
                    }
                } else {
                    fallback
                },
                _ => fallback,
            }
        },
    }
}

/// The explanation and check given by a reply's `explanation` and
/// `suggested_check` members: `None` without an explanation; otherwise the
/// trimmed explanation, and the trimmed check unless it is blank.
pub fn extract_fields(explanation: Option<String>, check: Option<String>) -> (r: Option<
    (String, Option<String>),
>)
    ensures
        match r {
            Some((t, c)) => extracted(opt_chars(explanation), opt_chars(check)) == Some(
                (t@, opt_chars(c)),
            ),
            None => extracted(opt_chars(explanation), opt_chars(check)) is None,
        },
{
    match explanation {
        Some(e) => {
            let text = string_of(&trim_chars(&chars_of(e.as_str())));
            let kept = match check {
                Some(x) => {
                    let t = trim_chars(&chars_of(x.as_str()));
                    if t.len() > 0 {
                        Some(string_of(&t))
                    } else {
                        None
                    }
                },
                None => None,
            };
            Some((text, kept))
        },
        None => None,
    }
}

/// Reads `text` as a JSON reply: its `explanation` and `suggested_check`.
fn reply_from_json(text: &str) -> (r: Option<(String, Option<String>)>)
    ensures
        match r {
            Some((t, c)) => reply_json(text@) == Some((t@, opt_chars(c))),
            None => reply_json(text@) is None,
        },
{
    let explanation_key = "explanation";
    let check_key = "suggested_check";
    let explanation = json_member(text, explanation_key);
    let check = json_member(text, check_key);
    extract_fields(explanation, check)
}

/// Split a model reply into the explanation and the optional check.
pub fn parse_explanation(content: &str) -> (r: (String, Option<String>))
    ensures
        (r.0@, opt_chars(r.1)) == reply_explanation(content@),
{
    if let Some(p) = reply_from_json(content) {
        return p;
    }
    let v = chars_of(content);
    let n = v.len();
    let open = chars_of("{");
    proof {
        reveal_strlit("{");
        assert(open@ =~= seq!['{']);
    }
    let start = find_exec(&v, &open);
    let end = last_index_of_exec(&v, '}');
    if let (Some(s), Some(e)) = (start, end) {
        if e > s {
            proof {
                lemma_last_index_bounds(v@, '}', v@.len() as int);
            }
            let inner = string_of(&slice_range(&v, s, e + 1));
            if let Some(p) = reply_from_json(inner.as_str()) {
                return p;
            }
        }
    }
    (string_of(&trim_chars(&v)), None)
}

/// The explanation built from a model reply, unless its text is blank;
/// `now` (microseconds) is when it was generated.
pub fn explanation_from_reply(content: &str, model: &str, now: i64) -> (r: Option<Explanation>)
    ensures
        trim(reply_explanation(content@).0).len() == 0 <==> r is None,
        r matches Some(x) ==> x.text@ == reply_explanation(content@).0 && opt_chars(x.suggested_check)
            == reply_explanation(content@).1 && x.model@ == model@ && x.generated_at == now,
{
    let (text, suggested_check) = parse_explanation(content);
    if trim_chars(&chars_of(text.as_str())).len() == 0 {
        return None;
    }
    Some(Explanation { text, suggested_check, model: model.to_string(), generated_at: now })
}

} // verus!
