//! Config-drift evaluation: the content hash of a watched file, whether it
//! changed since the remembered state, the unified diff of a text change
//! (bounded), and the drift event.

use hex;
use sha2::{Digest, Sha256};
use vstd::prelude::*;
use vstd::string::StringSliceAdditionalSpecFns;
use vstd::utf8::{encode_utf8, is_char_boundary, valid_utf8};

use crate::event::{ConfigDriftPayload, Event, Payload, Severity};
use crate::text::{cat, copy_string, opt_chars};

verus! {

/// The size cap, in bytes, on a file kept as text for diffing, and on a
/// stored diff.
pub const MAX_TEXT_BYTES: usize = 262144;

/// The SHA-256 digest of `bytes`.
pub uninterp spec fn sha256_digest(bytes: Seq<u8>) -> Seq<u8>;

/// The lines of unchanged context shown around each change in a diff.
pub const DIFF_CONTEXT_LINES: usize = 3;

/// The unified diff that the `similar` crate computes between the lines of
/// `old` and `new`, with `radius` lines of context and the given old and new
/// file headers.
pub uninterp spec fn similar_unified_diff(
    old_header: Seq<char>,
    new_header: Seq<char>,
    radius: usize,
    old: Seq<char>,
    new: Seq<char>,
) -> Seq<char>;

/// The diff of a watched file's change: `path` as both headers, with
/// [`DIFF_CONTEXT_LINES`] lines of context.
pub open spec fn unified_diff_text(path: Seq<char>, old: Seq<char>, new: Seq<char>) -> Seq<char> {
    similar_unified_diff(path, path, DIFF_CONTEXT_LINES, old, new)
}

/// The lower-case hexadecimal digit for `d` (below 16).
pub open spec fn hex_lower_digit(d: u8) -> char {
    if d < 10 {
        (0x30 + d) as char
    } else {
        (0x61 + d - 10) as char
    }
}

/// Lower-case hexadecimal text of `bytes`, two digits per byte.
pub open spec fn hex_text(bytes: Seq<u8>) -> Seq<char>
    decreases bytes.len(),
{
    if bytes.len() == 0 {
        seq![]
    } else {
        hex_text(bytes.drop_last()) + seq![
            hex_lower_digit(bytes.last() / 16),
            hex_lower_digit(bytes.last() % 16),
        ]
    }
}

/// `Sha256::digest`: the 32-byte SHA-256 digest of `bytes`.
#[verifier::external_body]
fn sha256(bytes: &[u8]) -> (d: Vec<u8>)
    ensures
        d@ == sha256_digest(bytes@),
        d@.len() == 32,
{
    Sha256::digest(bytes).to_vec()
}

/// `hex::encode`: two lower-case hex digits per byte.
#[verifier::external_body]
fn hex_encode(bytes: &[u8]) -> (s: String)
    ensures
        s@ == hex_text(bytes@),
{
    hex::encode(bytes)
}

/// `String::from_utf8`: the text `bytes` encode, when they are UTF-8.
#[verifier::external_body]
fn utf8_text(bytes: &[u8]) -> (r: Option<String>)
    ensures
        r is Some <==> valid_utf8(bytes@),
        r matches Some(s) ==> encode_utf8(s@) == bytes@,
{
    String::from_utf8(bytes.to_vec()).ok()
}

/// `similar::TextDiff::from_lines(old, new)` rendered as a unified diff with
/// `radius` lines of context and the given headers.
#[verifier::external_body]
fn similar_diff(old_header: &str, new_header: &str, radius: usize, old: &str, new: &str) -> (d:
    String)
    ensures
        d@ == similar_unified_diff(old_header@, new_header@, radius, old@, new@),
{
    similar::TextDiff::from_lines(old, new)
        .unified_diff()
        .context_radius(radius)
        .header(old_header, new_header)
        .to_string()
}

/// The unified diff of a watched file's change from `old` to `new`.
pub fn unified_diff(path: &str, old: &str, new: &str) -> (d: String)
    ensures
        d@ == unified_diff_text(path@, old@, new@),
{
    similar_diff(path, path, DIFF_CONTEXT_LINES, old, new)
}

/// The remembered state of a watched file: its content hash, and its text
/// when it was small UTF-8.
#[derive(Debug, Clone, PartialEq, Eq)]
pub struct FileState {
    pub hash: String,
    pub text: Option<String>,
}

/// The hash of a file's content: the hex of its SHA-256 digest.
pub open spec fn content_hash(bytes: Seq<u8>) -> Seq<char> {
    hex_text(sha256_digest(bytes))
}

/// The text kept for content `bytes`: the text they encode, when they are at
/// most [`MAX_TEXT_BYTES`] of UTF-8.
pub open spec fn kept_text(bytes: Seq<u8>, text: Option<Seq<char>>) -> bool {
    if bytes.len() <= MAX_TEXT_BYTES && valid_utf8(bytes) {
        text matches Some(t) && encode_utf8(t) == bytes
    } else {
        text is None
    }
}

/// Whether `stored` is the diff `d` as stored: `d` itself when it is at most
/// [`MAX_TEXT_BYTES`] bytes, else its first [`MAX_TEXT_BYTES`] bytes and a
/// truncation note.
pub open spec fn bounded_diff(d: Seq<char>, stored: Seq<char>) -> bool {
    if encode_utf8(d).len() <= MAX_TEXT_BYTES {
        stored == d
    } else {
        exists|h: Seq<char>|
            encode_utf8(h) == encode_utf8(d).take(MAX_TEXT_BYTES as int) && stored == h
                + "\n\u{2026} (diff truncated)"@
    }
}

/// Whether a diff can be cut at the byte limit: it is no longer, or the
/// limit falls on a character boundary.
pub open spec fn cuttable(d: Seq<char>) -> bool {
    encode_utf8(d).len() > MAX_TEXT_BYTES ==> is_char_boundary(encode_utf8(d), MAX_TEXT_BYTES as int)
}

/// The diff to store for a change of `old` to `new` at `path`, whether it can
/// be cut where it must be.
pub open spec fn diff_cuttable(path: Seq<char>, prev: Option<&FileState>, new_text: Option<Seq<char>>) -> bool {
    match (prev, new_text) {
        (Some(p), Some(n)) => match p.text {
            Some(o) => cuttable(unified_diff_text(path, o@, n)),
            None => true,
        },
        _ => true,
    }
}

fn bound_diff(d: String) -> (r: String)
    requires
        cuttable(d@),
    ensures
        bounded_diff(d@, r@),
{
    let bytes = d.as_str().as_bytes();
    if bytes.len() <= MAX_TEXT_BYTES {
        return d;
    }
    let (head, _) = d.as_str().split_at(MAX_TEXT_BYTES);
    let r = cat(head, "\n\u{2026} (diff truncated)");
    assert(encode_utf8(head@) == head.spec_bytes());
    assert(head.spec_bytes() =~= encode_utf8(d@).take(MAX_TEXT_BYTES as int));
    r
}

/// What evaluating new content `new_bytes` of `path` against the remembered
/// state `prev` gives: nothing when the content hash is unchanged; otherwise
/// the drift payload (old and new hash, and the bounded unified diff when both
/// versions are small UTF-8 text) and the new state to remember.
pub open spec fn evaluation(
    path: Seq<char>,
    prev: Option<&FileState>,
    new_bytes: Seq<u8>,
    r: Option<(ConfigDriftPayload, FileState)>,
) -> bool {
    &&& (r is None <==> (prev matches Some(p) && p.hash@ == content_hash(new_bytes)))
    &&& r matches Some((payload, state)) ==> {
        &&& payload.path@ == path
        &&& opt_chars(payload.old_hash) == (match prev {
            Some(p) => Some(p.hash@),
            None => None,
        })
        &&& payload.new_hash@ == content_hash(new_bytes)
        &&& state.hash@ == content_hash(new_bytes)
        &&& kept_text(new_bytes, opt_chars(state.text))
        &&& payload.extra@.len() == 0
        &&& match (prev, state.text) {
            (Some(p), Some(n)) => match p.text {
                Some(o) => payload.diff matches Some(d) && bounded_diff(
                    unified_diff_text(path, o@, n@),
                    d@,
                ),
                None => payload.diff is None,
            },
            _ => payload.diff is None,
        }
    }
}

/// Evaluate new content `new_bytes` of the watched file `path` against its
/// remembered state: `None` when the content hash is unchanged; otherwise the
/// drift payload (old and new hash, and the unified diff when both versions
/// are small UTF-8 text) and the new state to remember.
pub fn evaluate(path: &str, prev: Option<&FileState>, new_bytes: &[u8]) -> (r: Option<
    (ConfigDriftPayload, FileState),
>)
    requires
        forall|t: Seq<char>| kept_text(new_bytes@, Some(t)) ==> diff_cuttable(path@, prev, Some(t)),
    ensures
        evaluation(path@, prev, new_bytes@, r),
{
    let digest = sha256(new_bytes);
    let new_hash = hex_encode(digest.as_slice());
    if let Some(p) = prev {
        if p.hash == new_hash {
            return None;
        }
    }
    let new_text = if new_bytes.len() <= MAX_TEXT_BYTES {
        utf8_text(new_bytes)
    } else {
        None
    };
    let diff = match (prev, &new_text) {
        (Some(p), Some(n)) => match &p.text {
            Some(o) => {
                assert(kept_text(new_bytes@, Some(n@)));
                assert(diff_cuttable(path@, prev, Some(n@)));
                Some(bound_diff(unified_diff(path, o.as_str(), n.as_str())))
            },
            None => None,
        },
        _ => None,
    };
    let payload = ConfigDriftPayload {
        path: path.to_string(),
        old_hash: match prev {
            Some(p) => Some(copy_string(&p.hash)),
            None => None,
        },
        new_hash: copy_string(&new_hash),
        diff,
        extra: Vec::new(),
    };
    Some((payload, FileState { hash: new_hash, text: new_text }))
}

/// The text kept for `bytes`, if any (what [`evaluate`] remembers).
pub fn text_of(bytes: &[u8]) -> (r: Option<String>)
    ensures
        kept_text(bytes@, opt_chars(r)),
{
    if bytes.len() <= MAX_TEXT_BYTES {
        utf8_text(bytes)
    } else {
        None
    }
}

/// Evaluate as [`evaluate`] does, checking first that a diff it would store
/// can be cut at the byte limit; `None` when it cannot (there [`evaluate`]
/// is not defined).
pub fn evaluate_checked(path: &str, prev: Option<&FileState>, new_bytes: &[u8]) -> (r: Option<
    Option<(ConfigDriftPayload, FileState)>,
>)
    ensures
        r is None <==> exists|t: Seq<char>|
            kept_text(new_bytes@, Some(t)) && !diff_cuttable(path@, prev, Some(t)),
        r matches Some(x) ==> evaluation(path@, prev, new_bytes@, x),
{
    let t = text_of(new_bytes);
    let ok = match (prev, &t) {
        (Some(p), Some(n)) => match &p.text {
            Some(o) => {
                let d = unified_diff(path, o.as_str(), n.as_str());
                let b = d.as_str().as_bytes();
                b.len() <= MAX_TEXT_BYTES || d.as_str().is_char_boundary(MAX_TEXT_BYTES)
            },
            None => true,
        },
        _ => true,
    };
    if !ok {
        proof {
            let n = t->0@;
            assert(kept_text(new_bytes@, Some(n)));
            assert(!diff_cuttable(path@, prev, Some(n)));
        }
        return None;
    }
    proof {
        assert forall|x: Seq<char>| kept_text(new_bytes@, Some(x)) implies diff_cuttable(
            path@,
            prev,
            Some(x),
        ) by {
            assert(opt_chars(t) == Some(x)) by {
                lemma_kept_text_unique(new_bytes@, opt_chars(t), Some(x));
            }
        }
    }
    Some(evaluate(path, prev, new_bytes))
}

proof fn lemma_kept_text_unique(bytes: Seq<u8>, a: Option<Seq<char>>, b: Option<Seq<char>>)
    requires
        kept_text(bytes, a),
        kept_text(bytes, b),
    ensures
        a == b,
{
    if a is Some && b is Some {
        vstd::utf8::encode_utf8_decode_utf8(a->0);
        vstd::utf8::encode_utf8_decode_utf8(b->0);
    }
}

/// The payload reporting that a remembered file disappeared, when one was
/// remembered.
pub fn removal_payload(path: &str, prev: Option<FileState>) -> (r: Option<ConfigDriftPayload>)
    ensures
        prev is None <==> r is None,
        r matches Some(p) ==> p.path@ == path@ && opt_chars(p.old_hash) == Some(prev->0.hash@)
            && p.new_hash@ == "(removed)"@ && p.diff is None && p.extra@.len() == 0,
{
    match prev {
        Some(state) => Some(
            ConfigDriftPayload {
                path: path.to_string(),
                old_hash: Some(state.hash),
                new_hash: "(removed)".to_string(),
                diff: None,
                extra: Vec::new(),
            },
        ),
        None => None,
    }
}

/// The drift event for `payload`, with identifier `id` at `now`
/// (microseconds).
pub fn drift_event(payload: ConfigDriftPayload, agent_id: u128, host: &str, id: u128, now: i64) -> (e:
    Event)
    ensures
        e.id == id,
        e.occurred_at == now,
        e.observed_at == now,
        e.agent_id == agent_id,
        e.host@ == host@,
        e.severity == Severity::Warning,
        e.title@ == "config drift: "@ + payload.path@,
        e.category_hints@.len() == 0,
        e.payload == Payload::ConfigDrift(payload),
{
    let title = cat("config drift: ", payload.path.as_str());
    Event {
        id,
        occurred_at: now,
        observed_at: now,
        agent_id,
        host: host.to_string(),
        severity: Severity::Warning,
        title,
        category_hints: Vec::new(),
        payload: Payload::ConfigDrift(payload),
    }
}

} // verus!
