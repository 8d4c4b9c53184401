//! The explanation-quality harness's counting: incident categories, the
//! reference answers, the salient tokens an explanation should mention, and
//! the whole-number tallies the rubric's ratios are built from.

use vstd::prelude::*;

use crate::event::{Event, Payload};
use crate::kube::{lowercase, to_lower};
use crate::text::{
    cat, chars_of, contains, contains_exec, copy_string, dec, dec_chars, ends_with, ends_with_exec,
    last_index_of, last_index_of_exec, lemma_last_index_bounds, push_str_chars, slice_range,
    string_of, trim, trim_chars,
};

verus! {

/// The incident category a fixture exercises.
#[derive(Debug, Clone, Copy, PartialEq, Eq, Structural)]
pub enum Category {
    FailedUnit,
    OomKill,
    AuthAnomaly,
    ConfigDrift,
}

impl Category {
    /// The human label of the category.
    pub fn label(self) -> (s: &'static str)
        ensures
            s@ == match self {
                Category::FailedUnit => "failed unit"@,
                Category::OomKill => "OOM kill"@,
                Category::AuthAnomaly => "auth anomaly"@,
                Category::ConfigDrift => "config drift"@,
            },
    {
        match self {
            Category::FailedUnit => "failed unit",
            Category::OomKill => "OOM kill",
            Category::AuthAnomaly => "auth anomaly",
            Category::ConfigDrift => "config drift",
        }
    }
}

/// The reference answer a fixture's explanation is judged against.
#[derive(Debug, Clone, PartialEq, Eq)]
pub struct Reference {
    pub category: Category,
    pub reference_explanation: String,
    /// Facts a faithful explanation must mention.
    pub must_mention: Vec<String>,
    /// Facts that would be hallucinated for this fixture.
    pub forbidden: Vec<String>,
    pub expected_check: Option<String>,
    /// Words a specific diagnostic check contains.
    pub check_keywords: Vec<String>,
}

/// The corpus directory inside the crate directory `manifest_dir`
/// (`Path::join` of `fixtures/corpus`).
pub open spec fn corpus_dir_of(manifest_dir: Seq<char>) -> Seq<char> {
    if manifest_dir.len() == 0 || ends_with(manifest_dir, "/"@) {
        manifest_dir + "fixtures/corpus"@
    } else {
        manifest_dir + "/fixtures/corpus"@
    }
}

/// The directory holding the evaluation corpus, inside the crate directory.
pub fn default_corpus_dir(manifest_dir: &str) -> (p: String)
    ensures
        p@ == corpus_dir_of(manifest_dir@),
{
    let v = chars_of(manifest_dir);
    let slash = chars_of("/");
    if v.len() == 0 || ends_with_exec(&v, &slash) {
        cat(manifest_dir, "fixtures/corpus")
    } else {
        cat(manifest_dir, "/fixtures/corpus")
    }
}

/// The last `/`-separated part of a path.
pub open spec fn base_name(path: Seq<char>) -> Seq<char> {
    match last_index_of(path, '/') {
        Some(i) => path.skip(i + 1),
        None => path,
    }
}

/// The candidate tokens of an event, before blank ones are dropped: its host,
/// then what its payload names.
pub open spec fn candidate_tokens(e: Event) -> Seq<Seq<char>> {
    seq![e.host@] + match e.payload {
        Payload::Journald(p) => match p.unit {
            Some(u) => seq![u@],
            None => seq![],
        },
        Payload::FailedUnit(p) => seq![p.unit@, p.result@],
        Payload::ConfigDrift(p) => seq![base_name(p.path@)],
        Payload::Auth(p) => seq![p.action@] + (match p.user {
            Some(u) => seq![u@],
            None => seq![],
        }) + (match p.remote_addr {
            Some(a) => seq![a@],
            None => seq![],
        }),
        Payload::Update(p) => seq![p.mechanism@] + (match p.to {
            Some(t) => seq![t@],
            None => seq![],
        }),
        Payload::KubeWorkload(p) => seq![p.namespace@, p.name@, p.reason@],
        Payload::KubeNode(p) => seq![p.node@, p.condition@],
    }
}

/// The tokens that are not blank, in order.
pub open spec fn non_blank(tokens: Seq<Seq<char>>) -> Seq<Seq<char>>
    decreases tokens.len(),
{
    if tokens.len() == 0 {
        seq![]
    } else {
        let rest = non_blank(tokens.drop_last());
        if trim(tokens.last()).len() > 0 {
            rest.push(tokens.last())
        } else {
            rest
        }
    }
}

fn base_name_exec(path: &str) -> (r: String)
    ensures
        r@ == base_name(path@),
{
    let v = chars_of(path);
    match last_index_of_exec(&v, '/') {
        Some(i) => {
            proof {
                lemma_last_index_bounds(v@, '/', v@.len() as int);
            }
            let t = slice_range(&v, i + 1, v.len());
            assert(t@ =~= path@.skip(i + 1));
            string_of(&t)
        },
        None => string_of(&v),
    }
}

/// The salient tokens of an event: its host and what its payload names,
/// blank ones dropped.
pub fn salient_tokens(event: &Event) -> (tokens: Vec<String>)
    ensures
        tokens@.map_values(|t: String| t@) == non_blank(candidate_tokens(*event)),
{
    let mut all: Vec<String> = Vec::new();
    all.push(copy_string(&event.host));
    match &event.payload {
        Payload::Journald(p) => {
            if let Some(u) = &p.unit {
                all.push(copy_string(u));
            }
        },
        Payload::FailedUnit(p) => {
            all.push(copy_string(&p.unit));
            all.push(copy_string(&p.result));
        },
        Payload::ConfigDrift(p) => {
            all.push(base_name_exec(p.path.as_str()));
        },
        Payload::Auth(p) => {
            all.push(copy_string(&p.action));
            if let Some(u) = &p.user {
                all.push(copy_string(u));
            }
            if let Some(a) = &p.remote_addr {
                all.push(copy_string(a));
            }
        },
        Payload::Update(p) => {
            all.push(copy_string(&p.mechanism));
            if let Some(t) = &p.to {
                all.push(copy_string(t));
            }
        },
        Payload::KubeWorkload(p) => {
            all.push(copy_string(&p.namespace));
            all.push(copy_string(&p.name));
            all.push(copy_string(&p.reason));
        },
        Payload::KubeNode(p) => {
            all.push(copy_string(&p.node));
            all.push(copy_string(&p.condition));
        },
    }
    let ghost cand = candidate_tokens(*event);
    assert(all@.map_values(|t: String| t@) =~= cand);
    let mut tokens: Vec<String> = Vec::new();
    let mut i: usize = 0;
    while i < all.len()
        invariant
            i <= all@.len(),
            all@.map_values(|t: String| t@) == cand,
            tokens@.map_values(|t: String| t@) == non_blank(cand.take(i as int)),
        decreases all@.len() - i,
    {
        assert(cand.take(i + 1).drop_last() =~= cand.take(i as int));
        assert(cand.take(i + 1).last() == all@[i as int]@);
        let ghost before = tokens@;
        let v = chars_of(all[i].as_str());
        if trim_chars(&v).len() > 0 {
            tokens.push(copy_string(&all[i]));
            assert(tokens@.map_values(|t: String| t@) =~= before.map_values(|t: String| t@).push(
                all@[i as int]@,
            ));
        }
        i = i + 1;
    }
    assert(cand.take(i as int) =~= cand);
    tokens
}

/// How many of `needles` occur, lower-cased, in `haystack`.
pub open spec fn hit_count(haystack: Seq<char>, needles: Seq<String>) -> nat
    decreases needles.len(),
{
    if needles.len() == 0 {
        0
    } else {
        hit_count(haystack, needles.drop_last()) + (if contains(haystack, lowercase(needles.last()@)) {
            1nat
        } else {
            0nat
        })
    }
}

/// Count the needles that occur, lower-cased, in `haystack`.
pub fn hits(haystack: &str, needles: &Vec<String>) -> (n: usize)
    ensures
        n == hit_count(haystack@, needles@),
{
    let h = chars_of(haystack);
    let mut n: usize = 0;
    let mut i: usize = 0;
    while i < needles.len()
        invariant
            i <= needles@.len(),
            h@ == haystack@,
            n == hit_count(haystack@, needles@.take(i as int)),
            n <= i,
        decreases needles@.len() - i,
    {
        assert(needles@.take(i + 1).drop_last() =~= needles@.take(i as int));
        assert(needles@.take(i + 1).last() == needles@[i as int]);
        let l = to_lower(needles[i].as_str());
        if contains_exec(&h, &chars_of(l.as_str())) {
            n = n + 1;
        }
        i = i + 1;
    }
    assert(needles@.take(i as int) =~= needles@);
    n
}

/// The strings of `s` whose lower-case form no earlier string shares, in
/// order.
pub open spec fn dedup_lower(s: Seq<String>) -> Seq<String>
    decreases s.len(),
{
    if s.len() == 0 {
        seq![]
    } else {
        let rest = dedup_lower(s.drop_last());
        if exists|j: int| 0 <= j < s.len() - 1 && lowercase((#[trigger] s[j])@) == lowercase(s.last()@) {
            rest
        } else {
            rest.push(s.last())
        }
    }
}

/// The whole-number tallies behind an explanation's score.
#[derive(Debug, Clone, PartialEq, Eq)]
pub struct Tally {
    /// The explanation has text once trimmed.
    pub non_empty: bool,
    /// The distinct anchors (salient tokens and required mentions).
    pub anchors: usize,
    /// The anchors the explanation or check mentions.
    pub anchor_hits: usize,
    /// The forbidden facts of the reference.
    pub forbidden: usize,
    /// The forbidden facts the explanation states.
    pub forbidden_hits: usize,
    /// A non-blank check was suggested.
    pub has_check: bool,
    /// The check keywords of the reference.
    pub check_keywords: usize,
    /// The check keywords the suggested check contains.
    pub check_hits: usize,
    /// The trimmed explanation is 20 to 600 characters long.
    pub length_ok: bool,
}

/// The anchors of a scoring: the event's salient tokens, then the required
/// mentions, without repeats (ignoring case).
pub open spec fn anchors_of(tokens: Seq<String>, must_mention: Seq<String>) -> Seq<String> {
    dedup_lower(tokens + must_mention)
}

/// The text matched against anchors: the lower-cased explanation and check,
/// joined by a space.
pub open spec fn haystack_of(explanation: Seq<char>, check: Option<Seq<char>>) -> Seq<char> {
    lowercase(explanation) + " "@ + lowercase(
        match check {
            Some(c) => c,
            None => ""@,
        },
    )
}

fn dedup_lower_exec(s: &Vec<String>) -> (r: Vec<String>)
    ensures
        r@ == dedup_lower(s@),
{
    let mut lowered: Vec<Vec<char>> = Vec::new();
    let mut r: Vec<String> = Vec::new();
    let mut i: usize = 0;
    while i < s.len()
        invariant
            i <= s@.len(),
            lowered@.len() == i,
            forall|j: int| 0 <= j < i ==> (#[trigger] lowered@[j])@ == lowercase(s@[j]@),
            r@ == dedup_lower(s@.take(i as int)),
        decreases s@.len() - i,
    {
        let ghost t = s@.take(i + 1);
        assert(t.drop_last() =~= s@.take(i as int));
        assert(t.last() == s@[i as int]);
        let l = to_lower(s[i].as_str());
        let lv = chars_of(l.as_str());
        let mut seen = false;
        let mut j: usize = 0;
        while j < i
            invariant
                j <= i,
                i < s@.len(),
                lowered@.len() == i,
                forall|x: int| 0 <= x < i ==> (#[trigger] lowered@[x])@ == lowercase(s@[x]@),
                lv@ == lowercase(s@[i as int]@),
                seen == exists|x: int| 0 <= x < j && lowercase((#[trigger] s@[x])@) == lowercase(
                    s@[i as int]@,
                ),
            decreases i - j,
        {
            if crate::text::chars_eq(&lowered[j], &lv) {
                seen = true;
            }
            j = j + 1;
        }
        proof {
            assert forall|x: int| 0 <= x < i implies #[trigger] t[x] == s@[x] by {}
            assert((exists|x: int| 0 <= x < t.len() - 1 && lowercase((#[trigger] t[x])@) == lowercase(
                t.last()@,
            )) == seen) by {
                if seen {
                    let x = choose|x: int| 0 <= x < i && lowercase((#[trigger] s@[x])@) == lowercase(
                        s@[i as int]@,
                    );
                    assert(t[x] == s@[x]);
                }
            }
        }
        if !seen {
            r.push(s[i].clone());
        }
        lowered.push(lv);
        i = i + 1;
    }
    assert(s@.take(i as int) =~= s@);
    r
}

/// Tally how well `explanation` and `suggested_check` answer `event` against
/// `reference`.
pub fn tally(event: &Event, reference: &Reference, explanation: &str, suggested_check: Option<&str>) -> (t:
    Tally)
    ensures
        t.non_empty == (trim(explanation@).len() > 0),
        t.length_ok == (20 <= trim(explanation@).len() <= 600),
        t.has_check == (match suggested_check {
            Some(c) => trim(c@).len() > 0,
            None => false,
        }),
        t.forbidden == reference.forbidden@.len(),
        t.forbidden_hits == hit_count(lowercase(explanation@), reference.forbidden@),
        t.check_keywords == reference.check_keywords@.len(),
        t.check_hits == hit_count(
            lowercase(
                match suggested_check {
                    Some(c) => c@,
                    None => ""@,
                },
            ),
            reference.check_keywords@,
        ),
        exists|tokens: Seq<String>|
            tokens.map_values(|x: String| x@) == non_blank(candidate_tokens(*event)) && t.anchors
                == anchors_of(tokens, reference.must_mention@).len() && t.anchor_hits == hit_count(
                haystack_of(explanation@, opt_str(suggested_check)),
                anchors_of(tokens, reference.must_mention@),
            ),
{
    let ev = chars_of(explanation);
    let text = trim_chars(&ev);
    let non_empty = text.len() > 0;
    let length_ok = 20 <= text.len() && text.len() <= 600;
    let explanation_lc = to_lower(explanation);
    let check_raw: &str = match suggested_check {
        Some(c) => c,
        None => "",
    };
    let check_lc = to_lower(check_raw);
    let a = cat(explanation_lc.as_str(), " ");
    let haystack = cat(a.as_str(), check_lc.as_str());
    let mut anchors = salient_tokens(event);
    let ghost tokens = anchors@;
    let mut i: usize = 0;
    while i < reference.must_mention.len()
        invariant
            i <= reference.must_mention@.len(),
            anchors@ == tokens + reference.must_mention@.take(i as int),
        decreases reference.must_mention@.len() - i,
    {
        anchors.push(reference.must_mention[i].clone());
        assert(anchors@ =~= tokens + reference.must_mention@.take(i + 1));
        i = i + 1;
    }
    assert(reference.must_mention@.take(i as int) =~= reference.must_mention@);
    let anchors = dedup_lower_exec(&anchors);
    let anchor_hits = hits(haystack.as_str(), &anchors);
    let forbidden_hits = hits(explanation_lc.as_str(), &reference.forbidden);
    let has_check = match suggested_check {
        Some(c) => trim_chars(&chars_of(c)).len() > 0,
        None => false,
    };
    let check_hits = hits(check_lc.as_str(), &reference.check_keywords);
    proof {
        reveal_strlit("");
        assert(haystack@ == haystack_of(explanation@, opt_str(suggested_check)));
        assert(anchors@ == anchors_of(tokens, reference.must_mention@));
    }
    Tally {
        non_empty,
        anchors: anchors.len(),
        anchor_hits,
        forbidden: reference.forbidden.len(),
        forbidden_hits,
        has_check,
        check_keywords: reference.check_keywords.len(),
        check_hits,
        length_ok,
    }
}

/// The characters of an optional string slice.
pub open spec fn opt_str(o: Option<&str>) -> Option<Seq<char>> {
    match o {
        Some(s) => Some(s@),
        None => None,
    }
}


/// The opening of the results page, up to its headline table.
pub const SITE_INTRO: &'static str = "# Can a sub-2B CPU model handle the explanation last-mile?\n\nRavn's detection is deterministic \u{2014} taps fire the alarm. The model only writes the plain-language explanation and suggests one check. This page scores small, CPU-friendly models on exactly that job, over a fixed corpus of real-shaped events.\n\n**Corpus:** ";

/// What follows the corpus size on the results page.
pub const SITE_CORPUS_TAIL: &'static str = " events across failed units, OOM kills, auth anomalies, and config drift. **Scoring:** deterministic, model-free (no LLM-as-judge).\n\n## Headline results\n\n";

/// The heading of the per-category table.
pub const SITE_CATEGORY_HEADING: &'static str = "\n## By category (overall quality)\n\n";

/// How the harness scores, as the results page explains it.
pub const SITE_METHODOLOGY: &'static str = "\n## Methodology\n\n- **Faithfulness** = grounded in the event's salient facts AND free of invented facts. Each fixture ships hallucination traps (causes *not* in the event); naming one costs points. This is the metric that catches fluent-but-wrong tiny models.\n- **Actionability** = a concrete `suggested_check` was offered AND it targets the right tool/subject (a generic \"please investigate\" scores low).\n- **Overall** = 0.6\u{b7}faithfulness + 0.3\u{b7}actionability + 0.1\u{b7}length-sanity.\n- **Latency / memory** are measured against a live `llama-server` on CPU.\n\n";

/// The note shown when every run on the page was recorded.
pub const SITE_RECORDED_NOTE: &'static str = "> **Note:** every row on this page is a *recorded* run \u{2014} captured model output replayed through the live scoring harness. Re-run `ravn-eval --endpoint <url> --models ...` against a `llama-server` to produce live numbers. The scores, table, and methodology are identical; only the model responses are pre-captured.\n\n";

/// The heading of the reference answers.
pub const SITE_REFERENCES_HEADING: &'static str = "## Reference answers\n\nThe faithful, human-authored explanation and ideal check each fixture is scored against:\n\n";

/// One run on the results page: the model, when it was captured (empty for
/// a live run) and whether it was replayed from a recording.
pub struct SiteRun {
    pub model: String,
    pub captured_on: String,
    pub recorded: bool,
}

/// One reference answer on the results page: the fixture's name, its
/// category label, the reference explanation and the ideal check, if any.
pub struct SiteReference {
    pub name: String,
    pub category: String,
    pub explanation: String,
    pub check: Option<String>,
}

/// Whether a run carries provenance: recorded, with a capture note.
pub open spec fn has_provenance(r: SiteRun) -> bool {
    r.recorded && r.captured_on@.len() > 0
}

/// One line per run that carries provenance, in order.
pub open spec fn provenance_lines(runs: Seq<SiteRun>) -> Seq<char>
    decreases runs.len(),
{
    if runs.len() == 0 {
        seq![]
    } else {
        let r = runs.last();
        provenance_lines(runs.drop_last()) + if has_provenance(r) {
            "- **"@ + r.model@ + "** \u{2014} "@ + r.captured_on@ + "\n"@
        } else {
            seq![]
        }
    }
}

/// The provenance section: present when some run carries provenance.
pub open spec fn provenance_section(runs: Seq<SiteRun>) -> Seq<char> {
    if exists|i: int| 0 <= i < runs.len() && has_provenance(#[trigger] runs[i]) {
        "### Recorded-run provenance\n\n"@ + provenance_lines(runs) + "\n"@
    } else {
        seq![]
    }
}

/// One reference answer's text.
pub open spec fn reference_text(r: SiteReference) -> Seq<char> {
    "### "@ + r.name@ + " \u{2014} "@ + r.category@ + "\n\n"@ + r.explanation@ + "\n\n"@ + match r.check {
        Some(c) => "Ideal check: `"@ + c@ + "`\n\n"@,
        None => seq![],
    }
}

/// The reference answers, in order.
pub open spec fn references_text(refs: Seq<SiteReference>) -> Seq<char>
    decreases refs.len(),
{
    if refs.len() == 0 {
        seq![]
    } else {
        references_text(refs.drop_last()) + reference_text(refs.last())
    }
}

/// The results page: the introduction with the corpus size, the headline
/// and per-category tables, the methodology, the provenance of recorded
/// runs, a note when every run was recorded, and the reference answers.
pub open spec fn site_page_text(
    table: Seq<char>,
    category_table: Seq<char>,
    corpus_len: nat,
    runs: Seq<SiteRun>,
    refs: Seq<SiteReference>,
) -> Seq<char> {
    SITE_INTRO@ + dec(corpus_len) + SITE_CORPUS_TAIL@ + table + SITE_CATEGORY_HEADING@
        + category_table + SITE_METHODOLOGY@ + provenance_section(runs) + (if forall|i: int|
        0 <= i < runs.len() ==> (#[trigger] runs[i]).recorded {
        SITE_RECORDED_NOTE@
    } else {
        seq![]
    }) + SITE_REFERENCES_HEADING@ + references_text(refs)
}

/// Render the results page from its two rendered tables, the corpus size,
/// the runs shown and the reference answers.
pub fn site_page(
    table: &str,
    category_table: &str,
    corpus_len: usize,
    runs: &Vec<SiteRun>,
    refs: &Vec<SiteReference>,
) -> (p: String)
    ensures
        p@ == site_page_text(table@, category_table@, corpus_len as nat, runs@, refs@),
{
    let mut out: Vec<char> = Vec::new();
    push_str_chars(&mut out, SITE_INTRO);
    let n = dec_chars(corpus_len as u64);
    let ghost pre = out@;
    let mut k: usize = 0;
    while k < n.len()
        invariant
            k <= n@.len(),
            out@ == pre + n@.take(k as int),
        decreases n@.len() - k,
    {
        out.push(n[k]);
        k = k + 1;
        assert(out@ =~= pre + n@.take(k as int));
    }
    assert(n@.take(n@.len() as int) =~= n@);
    push_str_chars(&mut out, SITE_CORPUS_TAIL);
    push_str_chars(&mut out, table);
    push_str_chars(&mut out, SITE_CATEGORY_HEADING);
    push_str_chars(&mut out, category_table);
    push_str_chars(&mut out, SITE_METHODOLOGY);
    let mut lines: Vec<char> = Vec::new();
    let mut any = false;
    let mut all_recorded = true;
    let mut i: usize = 0;
    while i < runs.len()
        invariant
            i <= runs@.len(),
            lines@ == provenance_lines(runs@.take(i as int)),
            any == exists|j: int| 0 <= j < i && has_provenance(#[trigger] runs@[j]),
            all_recorded == forall|j: int| 0 <= j < i ==> (#[trigger] runs@[j]).recorded,
        decreases runs@.len() - i,
    {
        let r = &runs[i];
        assert(runs@.take(i + 1).drop_last() =~= runs@.take(i as int));
        if r.recorded && r.captured_on.as_str().unicode_len() > 0 {
            push_str_chars(&mut lines, "- **");
            push_str_chars(&mut lines, r.model.as_str());
            push_str_chars(&mut lines, "** \u{2014} ");
            push_str_chars(&mut lines, r.captured_on.as_str());
            push_str_chars(&mut lines, "\n");
            any = true;
        }
        if !r.recorded {
            all_recorded = false;
        }
        i = i + 1;
    }
    assert(runs@.take(runs@.len() as int) =~= runs@);
    if any {
        push_str_chars(&mut out, "### Recorded-run provenance\n\n");
        let ghost before = out@;
        let mut k: usize = 0;
        while k < lines.len()
            invariant
                k <= lines@.len(),
                out@ == before + lines@.take(k as int),
            decreases lines@.len() - k,
        {
            out.push(lines[k]);
            k = k + 1;
            assert(out@ =~= before + lines@.take(k as int));
        }
        assert(lines@.take(lines@.len() as int) =~= lines@);
        push_str_chars(&mut out, "\n");
    }
    if all_recorded {
        push_str_chars(&mut out, SITE_RECORDED_NOTE);
    }
    push_str_chars(&mut out, SITE_REFERENCES_HEADING);
    let ghost mid = out@;
    let mut j: usize = 0;
    while j < refs.len()
        invariant
            j <= refs@.len(),
            out@ == mid + references_text(refs@.take(j as int)),
        decreases refs@.len() - j,
    {
        let r = &refs[j];
        assert(refs@.take(j + 1).drop_last() =~= refs@.take(j as int));
        let ghost start = out@;
        push_str_chars(&mut out, "### ");
        push_str_chars(&mut out, r.name.as_str());
        push_str_chars(&mut out, " \u{2014} ");
        push_str_chars(&mut out, r.category.as_str());
        push_str_chars(&mut out, "\n\n");
        push_str_chars(&mut out, r.explanation.as_str());
        push_str_chars(&mut out, "\n\n");
        match &r.check {
            Some(c) => {
                push_str_chars(&mut out, "Ideal check: `");
                push_str_chars(&mut out, c.as_str());
                push_str_chars(&mut out, "`\n\n");
            },
            None => {},
        }
        assert(out@ =~= start + reference_text(refs@[j as int]));
        j = j + 1;
    }
    assert(refs@.take(refs@.len() as int) =~= refs@);
    string_of(&out)
}

} // verus!
