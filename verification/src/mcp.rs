//! The MCP server's own logic: its startup configuration, the tool catalog
//! (read-only by default, the two mutating tools only when enabled), the
//! routing of requests and tool calls, and the control-plane paths it asks.

use vstd::prelude::*;
use vstd::string::StringSliceAdditionalSpecFns;
use vstd::utf8::{encode_utf8, is_char_boundary};

use crate::text::{
    cat, chars_of, copy_string, ends_with, eq_lit, is_ws, opt_chars, slice_range, starts_with,
    starts_with_exec, str_is, string_of, trim_start, trim_start_chars,
};

verus! {

/// The MCP protocol revision this server speaks.
pub const PROTOCOL_VERSION: &'static str = "2025-06-18";

/// The default control-plane URL when none is configured.
pub const DEFAULT_BASE_URL: &'static str = "http://127.0.0.1:8080";

/// The most events `list_recent_events` requests (the control plane's own cap).
pub const MAX_EVENT_LIMIT: u32 = 500;

/// The event count when the caller gives no `limit`.
pub const DEFAULT_EVENT_LIMIT: u32 = 50;

/// The body of the usage text (the help text).
pub const USAGE_BODY: &'static str =
    "ravn-mcp \u{2014} the Ravn MCP server (read-only by default)\n\
     \n\
     USAGE:\n    \
         ravn-mcp [--url URL] [--token TOKEN] [--allow-mutations]\n\
     \n\
     OPTIONS:\n    \
         --url URL           Control-plane base URL (env RAVN_MCP_URL, default http://127.0.0.1:8080)\n    \
         --token TOKEN       Bearer token for the control plane (env RAVN_MCP_TOKEN)\n    \
         --allow-mutations   Expose approve/reject remediation tools (env RAVN_MCP_ALLOW_MUTATIONS).\n    \
         \x20                  Requires an admin-scoped --token. NEVER auto-executes.\n    \
         -h, --help          Print this help\n\
     \n\
     The server speaks MCP over stdio. Point an MCP client at it.";

/// The body of the usage text.
pub open spec fn usage_body() -> Seq<char> {
    USAGE_BODY@
}

/// The usage text, led by an error line.
pub open spec fn usage_text(error: Seq<char>) -> Seq<char> {
    error + "\n\n"@ + usage_body()
}

/// The usage text, prefixed with an error line.
pub fn usage(error: &str) -> (s: String)
    ensures
        s@ == usage_text(error@),
{
    let a = cat(error, "\n\n");
    cat(a.as_str(), USAGE_BODY)
}

/// The bare help text (no error prefix), for `--help`.
pub fn help_text() -> (s: String)
    ensures
        s@ == trim_start(usage_text(""@)),
{
    let u = usage("");
    let v = chars_of(u.as_str());
    string_of(&trim_start_chars(&v))
}

/// The usage text for an error is the error, a blank line, then the help
/// text: the help text is the usage body itself, since the body starts with
/// no whitespace.
pub proof fn usage_is_error_then_help(error: Seq<char>)
    ensures
        trim_start(usage_text(""@)) == usage_body(),
        usage_text(error) == error + "\n\n"@ + trim_start(usage_text(""@)),
{
    reveal_strlit(
    "ravn-mcp \u{2014} the Ravn MCP server (read-only by default)\n\
     \n\
     USAGE:\n    \
         ravn-mcp [--url URL] [--token TOKEN] [--allow-mutations]\n\
     \n\
     OPTIONS:\n    \
         --url URL           Control-plane base URL (env RAVN_MCP_URL, default http://127.0.0.1:8080)\n    \
         --token TOKEN       Bearer token for the control plane (env RAVN_MCP_TOKEN)\n    \
         --allow-mutations   Expose approve/reject remediation tools (env RAVN_MCP_ALLOW_MUTATIONS).\n    \
         \x20                  Requires an admin-scoped --token. NEVER auto-executes.\n    \
         -h, --help          Print this help\n\
     \n\
     The server speaks MCP over stdio. Point an MCP client at it.");
    reveal_strlit("");
    reveal_strlit("\n\n");
    let b = usage_body();
    let s = usage_text(""@);
    assert(s =~= seq!['\n', '\n'] + b);
    assert(s.drop_first() =~= seq!['\n'] + b);
    assert(s.drop_first().drop_first() =~= b);
    assert(is_ws(s[0]) && is_ws(s.drop_first()[0]));
    assert(!is_ws(b[0]));
    assert(trim_start(b) == b);
    assert(trim_start(s.drop_first()) == trim_start(b));
    assert(trim_start(s) == trim_start(s.drop_first()));
    assert(usage_text(error) =~= error + "\n\n"@ + b);
}

/// `s` with every leading repetition of `p` removed (`trim_start_matches`).
pub open spec fn strip_repeated(s: Seq<char>, p: Seq<char>) -> Seq<char>
    decreases s.len(),
{
    if p.len() > 0 && starts_with(s, p) {
        strip_repeated(s.skip(p.len() as int), p)
    } else {
        s
    }
}

fn strip_repeated_exec(s: &str, p: &str) -> (r: String)
    ensures
        r@ == strip_repeated(s@, p@),
{
    let v = chars_of(s);
    let pv = chars_of(p);
    let mut start: usize = 0;
    assert(v@.skip(0) =~= v@);
    while pv.len() > 0 && start <= v.len() && starts_with_exec(&slice_range(&v, start, v.len()), &pv)
        invariant
            start <= v@.len(),
            pv@ == p@,
            strip_repeated(s@, p@) == strip_repeated(v@.skip(start as int), p@),
            v@ == s@,
        decreases v@.len() - start,
    {
        assert(slice_range_view(v@, start as int) =~= v@.skip(start as int));
        assert(v@.skip(start as int).skip(pv@.len() as int) =~= v@.skip(start + pv@.len()));
        start = start + pv.len();
    }
    let out = slice_range(&v, start, v.len());
    assert(out@ =~= v@.skip(start as int));
    string_of(&out)
}

spec fn slice_range_view(v: Seq<char>, start: int) -> Seq<char> {
    v.subrange(start, v.len() as int)
}

/// How argument parsing ends.
pub ghost enum ParseOutcome {
    /// `--help` was asked for.
    Help,
    /// A bad argument, with the usage text to show.
    Fail(Seq<char>),
    /// The URL, token and mutation switch the arguments leave.
    Done(Option<Seq<char>>, Option<Seq<char>>, bool),
}

/// Parse the flags `args`, starting from the URL, token and mutation switch
/// the environment gave; a flag overrides the environment, and the first
/// `--help` or bad argument ends the parse.
pub open spec fn parse_flags(
    args: Seq<String>,
    url: Option<Seq<char>>,
    token: Option<Seq<char>>,
    allow: bool,
) -> ParseOutcome
    decreases args.len(),
{
    if args.len() == 0 {
        ParseOutcome::Done(url, token, allow)
    } else {
        let a = args[0]@;
        if a == "--help"@ || a == "-h"@ {
            ParseOutcome::Help
        } else if a == "--allow-mutations"@ {
            parse_flags(args.drop_first(), url, token, true)
        } else if a == "--url"@ {
            if args.len() < 2 {
                ParseOutcome::Fail(usage_text("--url needs a value"@))
            } else {
                parse_flags(args.skip(2), Some(args[1]@), token, allow)
            }
        } else if a == "--token"@ {
            if args.len() < 2 {
                ParseOutcome::Fail(usage_text("--token needs a value"@))
            } else {
                parse_flags(args.skip(2), url, Some(args[1]@), allow)
            }
        } else if starts_with(a, "--url="@) {
            parse_flags(args.drop_first(), Some(strip_repeated(a, "--url="@)), token, allow)
        } else if starts_with(a, "--token="@) {
            parse_flags(args.drop_first(), url, Some(strip_repeated(a, "--token="@)), allow)
        } else {
            ParseOutcome::Fail(usage_text("unknown argument: "@ + a))
        }
    }
}

/// The environment variables the server reads (unset ones as `None`).
#[derive(Debug, Clone, PartialEq, Eq)]
pub struct McpEnv {
    pub url: Option<String>,
    pub token: Option<String>,
    pub allow_mutations: Option<String>,
    pub log: Option<String>,
    pub rust_log: Option<String>,
}

/// An environment value, empty counting as unset.
pub open spec fn env_value(v: Option<String>) -> Option<Seq<char>> {
    match v {
        Some(s) => if s@.len() == 0 {
            None
        } else {
            Some(s@)
        },
        None => None,
    }
}

/// Whether an environment value turns mutations on.
pub open spec fn truthy(v: Option<Seq<char>>) -> bool {
    match v {
        Some(s) => s == "1"@ || s == "true"@ || s == "yes"@ || s == "on"@,
        None => false,
    }
}

fn env_exec(v: &Option<String>) -> (r: Option<String>)
    ensures
        opt_chars(r) == env_value(*v),
{
    match v {
        Some(s) => if s.as_str().is_empty() {
            None
        } else {
            Some(copy_string(s))
        },
        None => None,
    }
}

/// Resolved configuration for one MCP server run.
#[derive(Debug, Clone, PartialEq, Eq)]
pub struct Config {
    /// Control-plane base URL, e.g. `http://127.0.0.1:8080`.
    pub base_url: String,
    /// Bearer token presented to the control plane, if any.
    pub token: Option<String>,
    /// Whether the gated mutating tools are exposed and callable.
    pub allow_mutations: bool,
    /// Tracing filter; `warn` by default so protocol output stays clean.
    pub log: String,
}

impl Config {
    /// Parse the flags `args` (without the program name) over the
    /// environment `env`: a flag beats its environment variable, which beats
    /// the default. `Ok(None)` means `--help` was asked for; a bad flag is
    /// `Err` with the usage text.
    pub fn parse(args: &Vec<String>, env: &McpEnv) -> (r: Result<Option<Config>, String>)
        ensures
            match parse_flags(args@, env_value(env.url), env_value(env.token), truthy(env_value(env.allow_mutations))) {
                ParseOutcome::Help => r matches Ok(None),
                ParseOutcome::Fail(text) => r matches Err(e) && e@ == text,
                ParseOutcome::Done(url, token, allow) => r matches Ok(Some(c)) && c.base_url@ == (match url {
                    Some(u) => u,
                    None => DEFAULT_BASE_URL@,
                }) && opt_chars(c.token) == token && c.allow_mutations == allow && c.log@ == (match env_value(env.log) {
                    Some(l) => l,
                    None => match env_value(env.rust_log) {
                        Some(l) => l,
                        None => "warn"@,
                    },
                }),
            },
    {
        let mut url = env_exec(&env.url);
        let mut token = env_exec(&env.token);
        let mut allow = match env_exec(&env.allow_mutations) {
            Some(v) => str_is(v.as_str(), "1") || str_is(v.as_str(), "true") || str_is(v.as_str(), "yes")
                || str_is(v.as_str(), "on"),
            None => false,
        };
        let log = match env_exec(&env.log) {
            Some(l) => l,
            None => match env_exec(&env.rust_log) {
                Some(l) => l,
                None => "warn".to_string(),
            },
        };
        let ghost start = parse_flags(args@, opt_chars(url), opt_chars(token), allow);
        let mut i: usize = 0;
        assert(args@.skip(0) =~= args@);
        while i < args.len()
            invariant
                i <= args@.len(),
                start == parse_flags(args@.skip(i as int), opt_chars(url), opt_chars(token), allow),
                start == parse_flags(
                    args@,
                    env_value(env.url),
                    env_value(env.token),
                    truthy(env_value(env.allow_mutations)),
                ),
                log@ == (match env_value(env.log) {
                    Some(l) => l,
                    None => match env_value(env.rust_log) {
                        Some(l) => l,
                        None => "warn"@,
                    },
                }),
            decreases args@.len() - i,
        {
            let ghost rest = args@.skip(i as int);
            assert(rest[0] == args@[i as int]);
            assert(rest.drop_first() =~= args@.skip(i + 1));
            let a = chars_of(args[i].as_str());
            if eq_lit(&a, "--help") || eq_lit(&a, "-h") {
                return Ok(None);
            } else if eq_lit(&a, "--allow-mutations") {
                allow = true;
                i = i + 1;
            } else if eq_lit(&a, "--url") {
                if i + 1 >= args.len() {
                    return Err(usage("--url needs a value"));
                }
                assert(rest[1] == args@[i + 1]);
                assert(rest.skip(2) =~= args@.skip(i + 2));
                url = Some(copy_string(&args[i + 1]));
                i = i + 2;
            } else if eq_lit(&a, "--token") {
                if i + 1 >= args.len() {
                    return Err(usage("--token needs a value"));
                }
                assert(rest[1] == args@[i + 1]);
                assert(rest.skip(2) =~= args@.skip(i + 2));
                token = Some(copy_string(&args[i + 1]));
                i = i + 2;
            } else if starts_with_exec(&a, &chars_of("--url=")) {
                url = Some(strip_repeated_exec(args[i].as_str(), "--url="));
                i = i + 1;
            } else if starts_with_exec(&a, &chars_of("--token=")) {
                token = Some(strip_repeated_exec(args[i].as_str(), "--token="));
                i = i + 1;
            } else {
                let msg = cat("unknown argument: ", args[i].as_str());
                return Err(usage(msg.as_str()));
            }
        }
        let base_url = match url {
            Some(u) => u,
            None => DEFAULT_BASE_URL.to_string(),
        };
        Ok(Some(Config { base_url, token, allow_mutations: allow, log }))
    }
}

/// How a tool is annotated for clients.
#[derive(Debug, Clone, PartialEq, Eq)]
pub struct ToolAnnotations {
    pub title: &'static str,
    pub read_only_hint: bool,
    pub destructive_hint: bool,
    pub idempotent_hint: bool,
    pub open_world_hint: bool,
}

/// The annotations of a read-only tool: it observes and never mutates; its
/// data comes from an outside system.
pub fn read_only(title: &'static str) -> (a: ToolAnnotations)
    ensures
        a.title == title,
        a.read_only_hint,
        !a.destructive_hint,
        a.idempotent_hint,
        a.open_world_hint,
{
    ToolAnnotations {
        title,
        read_only_hint: true,
        destructive_hint: false,
        idempotent_hint: true,
        open_world_hint: true,
    }
}

/// The annotations of a mutating tool: state-changing, not destructive, not
/// idempotent.
pub fn mutating(title: &'static str) -> (a: ToolAnnotations)
    ensures
        a.title == title,
        !a.read_only_hint,
        !a.destructive_hint,
        !a.idempotent_hint,
        a.open_world_hint,
{
    ToolAnnotations {
        title,
        read_only_hint: false,
        destructive_hint: false,
        idempotent_hint: false,
        open_world_hint: true,
    }
}

/// A tool a client may call: its name, description, JSON-Schema input
/// schema (as JSON text) and annotations.
#[derive(Debug, Clone, PartialEq, Eq)]
pub struct ToolDefinition {
    pub name: &'static str,
    pub description: String,
    pub input_schema: String,
    pub annotations: ToolAnnotations,
}

/// The input schema of a tool that takes no arguments.
pub const NO_ARGS_SCHEMA: &'static str = "{\"type\":\"object\",\"properties\":{},\"additionalProperties\":false}";

/// The input schema of `list_recent_events`: an optional `limit` within the cap.
pub const LIMIT_SCHEMA: &'static str = "{\"type\":\"object\",\"properties\":{\"limit\":{\"type\":\"integer\",\"minimum\":1,\"maximum\":500,\"description\":\"Maximum number of events to return.\"}},\"additionalProperties\":false}";

/// The input schema of `get_event`: a required event `id`.
pub const EVENT_ID_SCHEMA: &'static str = "{\"type\":\"object\",\"properties\":{\"id\":{\"type\":\"string\",\"description\":\"The event UUID.\"}},\"required\":[\"id\"],\"additionalProperties\":false}";

/// The input schema of `get_topology`: an optional `group_by` label key.
pub const GROUP_SCHEMA: &'static str = "{\"type\":\"object\",\"properties\":{\"group_by\":{\"type\":\"string\",\"description\":\"Label key to group agents by (e.g. `env`). Omit for a single group.\"}},\"additionalProperties\":false}";

/// The input schema of `list_remediation_proposals`: an optional `pending_only`.
pub const PENDING_SCHEMA: &'static str = "{\"type\":\"object\",\"properties\":{\"pending_only\":{\"type\":\"boolean\",\"description\":\"When true (default), return only proposals still awaiting a decision.\"}},\"additionalProperties\":false}";

/// The input schema of the two mutating tools: a required proposal `id`.
pub const PROPOSAL_ID_SCHEMA: &'static str = "{\"type\":\"object\",\"properties\":{\"id\":{\"type\":\"string\",\"description\":\"The remediation proposal UUID.\"}},\"required\":[\"id\"],\"additionalProperties\":false}";

/// What `list_agents` tells a client it does.
pub const LIST_AGENTS_DESCRIPTION: &'static str = "List all registered Ravn agents with their derived liveness status (online/stale/offline), host, labels, and last-seen time. Read-only.";

/// What `list_recent_events` tells a client it does.
pub const LIST_RECENT_EVENTS_DESCRIPTION: &'static str = "List recent detection events across the fleet, newest first. These are deterministic detections (not LLM output). Optional `limit` (1\u{2013}500, default 50). Read-only.";

/// What `get_event` tells a client it does.
pub const GET_EVENT_DESCRIPTION: &'static str = "Fetch a single detection event by its `id` (UUID). Returns the full stored event including payload and any LLM explanation. Read-only.";

/// What `get_topology` tells a client it does.
pub const GET_TOPOLOGY_DESCRIPTION: &'static str = "Return the fleet shaped for the topology diagram: agents grouped by an optional label key (`group_by`, e.g. `env`), each node carrying its status and worst recent severity. Read-only.";

/// What `list_remediation_proposals` tells a client it does.
pub const LIST_PROPOSALS_DESCRIPTION: &'static str = "List remediation records, optionally filtered to only those awaiting a decision (`pending_only`, default true). Each proposal is a pre-authored, deterministic remediation matched to a detection \u{2014} never LLM-authored. Read-only: this does NOT approve or reject anything.";

/// What `approve_remediation` tells a client it does.
pub const APPROVE_DESCRIPTION: &'static str = "Approve a PENDING remediation proposal by `id`: the control plane signs and enqueues the command for the target agent to pull. The action is attributed to the supplied admin token. This never executes anything directly and never auto-approves \u{2014} it mirrors clicking Approve in the portal. Gated: requires the server to run with --allow-mutations and an admin-scoped token.";

/// What `reject_remediation` tells a client it does.
pub const REJECT_DESCRIPTION: &'static str = "Reject a pending remediation proposal by `id`. Records the rejection in the audit trail; no command is issued. Gated: requires --allow-mutations and an admin-scoped token.";

/// The read-only tool names, in catalog order.
pub open spec fn read_only_names() -> Seq<Seq<char>> {
    seq![
        "list_agents"@,
        "list_recent_events"@,
        "get_event"@,
        "get_topology"@,
        "list_remediation_proposals"@,
    ]
}

/// The mutating tool names, in catalog order.
pub open spec fn mutating_names() -> Seq<Seq<char>> {
    seq!["approve_remediation"@, "reject_remediation"@]
}

/// One entry of the catalog: the tool's name, title, description and input
/// schema (JSON text).
pub struct ToolEntry {
    pub name: Seq<char>,
    pub title: Seq<char>,
    pub description: Seq<char>,
    pub schema: Seq<char>,
}

/// The read-only tools, in catalog order.
pub open spec fn read_only_entries() -> Seq<ToolEntry> {
    seq![
        ToolEntry {
            name: read_only_names()[0],
            title: "List agents"@,
            description: LIST_AGENTS_DESCRIPTION@,
            schema: NO_ARGS_SCHEMA@,
        },
        ToolEntry {
            name: read_only_names()[1],
            title: "List recent events"@,
            description: LIST_RECENT_EVENTS_DESCRIPTION@,
            schema: LIMIT_SCHEMA@,
        },
        ToolEntry {
            name: read_only_names()[2],
            title: "Get event"@,
            description: GET_EVENT_DESCRIPTION@,
            schema: EVENT_ID_SCHEMA@,
        },
        ToolEntry {
            name: read_only_names()[3],
            title: "Get topology"@,
            description: GET_TOPOLOGY_DESCRIPTION@,
            schema: GROUP_SCHEMA@,
        },
        ToolEntry {
            name: read_only_names()[4],
            title: "List remediation proposals"@,
            description: LIST_PROPOSALS_DESCRIPTION@,
            schema: PENDING_SCHEMA@,
        },
    ]
}

/// The mutating tools, in catalog order.
pub open spec fn mutating_entries() -> Seq<ToolEntry> {
    seq![
        ToolEntry {
            name: mutating_names()[0],
            title: "Approve remediation"@,
            description: APPROVE_DESCRIPTION@,
            schema: PROPOSAL_ID_SCHEMA@,
        },
        ToolEntry {
            name: mutating_names()[1],
            title: "Reject remediation"@,
            description: REJECT_DESCRIPTION@,
            schema: PROPOSAL_ID_SCHEMA@,
        },
    ]
}

/// Whether `a` annotates a tool titled `title` as read-only (observes only,
/// idempotent) or as mutating (state-changing, not idempotent); neither kind
/// is destructive, and both reach an outside system.
pub open spec fn annotated(a: ToolAnnotations, title: Seq<char>, read_only: bool) -> bool {
    &&& a.title@ == title
    &&& a.read_only_hint == read_only
    &&& !a.destructive_hint
    &&& a.idempotent_hint == read_only
    &&& a.open_world_hint
}

/// Whether `tools` are exactly the tools of `entries`, in order, each
/// annotated read-only or mutating as `read_only` says.
pub open spec fn catalog_is(tools: Seq<ToolDefinition>, entries: Seq<ToolEntry>, read_only: bool) -> bool {
    &&& tools.len() == entries.len()
    &&& forall|i: int|
        0 <= i < tools.len() ==> {
            &&& (#[trigger] tools[i]).name@ == entries[i].name
            &&& tools[i].description@ == entries[i].description
            &&& tools[i].input_schema@ == entries[i].schema
            &&& annotated(tools[i].annotations, entries[i].title, read_only)
        }
}

/// Whether a schema text describes a JSON object with a `properties` object.
pub open spec fn object_schema(text: Seq<char>) -> bool {
    starts_with(text, "{\"type\":\"object\",\"properties\":{"@)
}

/// Whether a schema text forbids properties beyond those it lists.
pub open spec fn closed_schema(text: Seq<char>) -> bool {
    ends_with(text, ",\"additionalProperties\":false}"@)
}

/// Whether a schema text requires exactly the one property `id`.
pub open spec fn requires_only_id(text: Seq<char>) -> bool {
    ends_with(text, "},\"required\":[\"id\"],\"additionalProperties\":false}"@)
}

/// Every tool's input schema is a closed JSON object schema with a
/// `properties` object; `get_event` and both mutating tools require exactly
/// an `id`.
pub proof fn catalog_schemas_are_closed_objects()
    ensures
        forall|i: int|
            0 <= i < read_only_entries().len() ==> object_schema(
                (#[trigger] read_only_entries()[i]).schema,
            ) && closed_schema(read_only_entries()[i].schema),
        forall|i: int|
            0 <= i < mutating_entries().len() ==> object_schema(
                (#[trigger] mutating_entries()[i]).schema,
            ) && closed_schema(mutating_entries()[i].schema) && requires_only_id(
                mutating_entries()[i].schema,
            ),
        requires_only_id(read_only_entries()[2].schema),
{
    reveal_strlit("{\"type\":\"object\",\"properties\":{");
    reveal_strlit(",\"additionalProperties\":false}");
    reveal_strlit("},\"required\":[\"id\"],\"additionalProperties\":false}");
    reveal_strlit("{\"type\":\"object\",\"properties\":{},\"additionalProperties\":false}");
    reveal_strlit("{\"type\":\"object\",\"properties\":{\"limit\":{\"type\":\"integer\",\"minimum\":1,\"maximum\":500,\"description\":\"Maximum number of events to return.\"}},\"additionalProperties\":false}");
    reveal_strlit("{\"type\":\"object\",\"properties\":{\"id\":{\"type\":\"string\",\"description\":\"The event UUID.\"}},\"required\":[\"id\"],\"additionalProperties\":false}");
    reveal_strlit("{\"type\":\"object\",\"properties\":{\"group_by\":{\"type\":\"string\",\"description\":\"Label key to group agents by (e.g. `env`). Omit for a single group.\"}},\"additionalProperties\":false}");
    reveal_strlit("{\"type\":\"object\",\"properties\":{\"pending_only\":{\"type\":\"boolean\",\"description\":\"When true (default), return only proposals still awaiting a decision.\"}},\"additionalProperties\":false}");
    reveal_strlit("{\"type\":\"object\",\"properties\":{\"id\":{\"type\":\"string\",\"description\":\"The remediation proposal UUID.\"}},\"required\":[\"id\"],\"additionalProperties\":false}");
    let head = "{\"type\":\"object\",\"properties\":{"@;
    let tail = ",\"additionalProperties\":false}"@;
    let id_tail = "},\"required\":[\"id\"],\"additionalProperties\":false}"@;
    let schemas = seq![
        NO_ARGS_SCHEMA@,
        LIMIT_SCHEMA@,
        EVENT_ID_SCHEMA@,
        GROUP_SCHEMA@,
        PENDING_SCHEMA@,
        PROPOSAL_ID_SCHEMA@,
    ];
    assert forall|k: int| 0 <= k < 6 implies object_schema(#[trigger] schemas[k]) && closed_schema(
        schemas[k],
    ) by {
        let s = schemas[k];
        assert(s.take(head.len() as int) =~= head);
        assert(s.skip(s.len() - tail.len()) =~= tail);
    }
    assert(EVENT_ID_SCHEMA@.skip(EVENT_ID_SCHEMA@.len() - id_tail.len()) =~= id_tail);
    assert(PROPOSAL_ID_SCHEMA@.skip(PROPOSAL_ID_SCHEMA@.len() - id_tail.len()) =~= id_tail);
    assert(read_only_entries()[0].schema == schemas[0]);
    assert(read_only_entries()[1].schema == schemas[1]);
    assert(read_only_entries()[2].schema == schemas[2]);
    assert(read_only_entries()[3].schema == schemas[3]);
    assert(read_only_entries()[4].schema == schemas[4]);
    assert(mutating_entries()[0].schema == schemas[5]);
    assert(mutating_entries()[1].schema == schemas[5]);
}

fn tool(
    name: &'static str,
    description: &str,
    schema: &str,
    annotations: ToolAnnotations,
) -> (t: ToolDefinition)
    ensures
        t.name == name,
        t.description@ == description@,
        t.input_schema@ == schema@,
        t.annotations == annotations,
{
    ToolDefinition {
        name,
        description: description.to_string(),
        input_schema: schema.to_string(),
        annotations,
    }
}

/// The read-only tool definitions, always available.
pub fn read_only_tools() -> (tools: Vec<ToolDefinition>)
    ensures
        catalog_is(tools@, read_only_entries(), true),
{
    let mut tools: Vec<ToolDefinition> = Vec::new();
    tools.push(
        tool("list_agents", LIST_AGENTS_DESCRIPTION, NO_ARGS_SCHEMA, read_only("List agents")),
    );
    tools.push(
        tool(
            "list_recent_events",
            LIST_RECENT_EVENTS_DESCRIPTION,
            LIMIT_SCHEMA,
            read_only("List recent events"),
        ),
    );
    tools.push(tool("get_event", GET_EVENT_DESCRIPTION, EVENT_ID_SCHEMA, read_only("Get event")));
    tools.push(
        tool("get_topology", GET_TOPOLOGY_DESCRIPTION, GROUP_SCHEMA, read_only("Get topology")),
    );
    tools.push(
        tool(
            "list_remediation_proposals",
            LIST_PROPOSALS_DESCRIPTION,
            PENDING_SCHEMA,
            read_only("List remediation proposals"),
        ),
    );
    assert(tools@.len() == 5);
    tools
}

/// The mutating tool definitions, registered only with mutations enabled.
pub fn mutating_tools() -> (tools: Vec<ToolDefinition>)
    ensures
        catalog_is(tools@, mutating_entries(), false),
{
    let mut tools: Vec<ToolDefinition> = Vec::new();
    tools.push(
        tool(
            "approve_remediation",
            APPROVE_DESCRIPTION,
            PROPOSAL_ID_SCHEMA,
            mutating("Approve remediation"),
        ),
    );
    tools.push(
        tool(
            "reject_remediation",
            REJECT_DESCRIPTION,
            PROPOSAL_ID_SCHEMA,
            mutating("Reject remediation"),
        ),
    );
    tools
}

/// The tools to advertise: the read-only ones, followed by the mutating ones
/// only when mutations are enabled.
pub fn tool_catalog(allow_mutations: bool) -> (tools: Vec<ToolDefinition>)
    ensures
        allow_mutations ==> tools@.len() == 7 && catalog_is(
            tools@.take(5),
            read_only_entries(),
            true,
        ) && catalog_is(tools@.skip(5), mutating_entries(), false),
        !allow_mutations ==> catalog_is(tools@, read_only_entries(), true),
{
    let mut tools = read_only_tools();
    if allow_mutations {
        let ghost first = tools@;
        let mut more = mutating_tools();
        let ghost second = more@;
        tools.append(&mut more);
        assert(tools@.take(5) =~= first);
        assert(tools@.skip(5) =~= second);
    }
    tools
}

/// A JSON-RPC error object (the optional `data` member is never set).
#[derive(Debug, Clone, PartialEq, Eq)]
pub struct JsonRpcError {
    pub code: i64,
    pub message: String,
}

impl JsonRpcError {
    /// The request could not be parsed (`-32700`).
    pub fn parse_error(detail: String) -> (e: JsonRpcError)
        ensures
            e.code == -32700,
            e.message == detail,
    {
        JsonRpcError { code: -32700, message: detail }
    }

    /// No such method (`-32601`), naming it.
    pub fn method_not_found(method: &str) -> (e: JsonRpcError)
        ensures
            e.code == -32601,
            e.message@ == "method not found: "@ + method@,
    {
        JsonRpcError { code: -32601, message: cat("method not found: ", method) }
    }

    /// The parameters are invalid (`-32602`).
    pub fn invalid_params(detail: String) -> (e: JsonRpcError)
        ensures
            e.code == -32602,
            e.message == detail,
    {
        JsonRpcError { code: -32602, message: detail }
    }

    /// An internal failure (`-32603`).
    pub fn internal(detail: String) -> (e: JsonRpcError)
        ensures
            e.code == -32603,
            e.message == detail,
    {
        JsonRpcError { code: -32603, message: detail }
    }
}

/// A content block of a tool result.
#[derive(Debug, Clone, PartialEq, Eq)]
pub enum ContentBlock {
    Text { text: String },
}

impl ContentBlock {
    /// A text block.
    pub fn text(text: String) -> (b: ContentBlock)
        ensures
            b == (ContentBlock::Text { text }),
    {
        ContentBlock::Text { text }
    }
}

/// The result of a tool call: content blocks, and whether it is an error.
#[derive(Debug, Clone, PartialEq, Eq)]
pub struct CallToolResult {
    pub content: Vec<ContentBlock>,
    pub is_error: bool,
}

impl CallToolResult {
    /// A successful result holding one text block (the pretty JSON of the
    /// answer).
    pub fn text(text: String) -> (r: CallToolResult)
        ensures
            !r.is_error,
            r.content@ == seq![ContentBlock::Text { text }],
    {
        let mut content: Vec<ContentBlock> = Vec::new();
        content.push(ContentBlock::text(text));
        CallToolResult { content, is_error: false }
    }

    /// An error result holding one text block with `message`.
    pub fn error(message: String) -> (r: CallToolResult)
        ensures
            r.is_error,
            r.content@ == seq![ContentBlock::Text { text: message }],
    {
        let mut content: Vec<ContentBlock> = Vec::new();
        content.push(ContentBlock::text(message));
        CallToolResult { content, is_error: true }
    }
}

/// What the server does with a `tools/call` for a tool name.
#[derive(Debug, Clone, PartialEq, Eq)]
pub enum ToolRoute {
    ListAgents,
    ListRecentEvents,
    GetEvent,
    GetTopology,
    ListRemediationProposals,
    Approve,
    Reject,
    /// Refuse with this error result.
    Refuse(CallToolResult),
}

/// The refusal text for a mutating tool on a read-only server.
pub open spec fn disabled_text(name: Seq<char>) -> Seq<char> {
    "tool `"@ + name
        + "` is disabled: this MCP server runs read-only. Restart it with --allow-mutations and an admin token to enable mutations."@
}

/// The route of a tool call: each known tool to its handler, a mutating tool
/// on a read-only server refused (as defence in depth), any other name
/// refused as unknown.
pub open spec fn tool_route(name: Seq<char>, allow_mutations: bool) -> Result<int, Seq<char>> {
    if name == "list_agents"@ {
        Ok(0)
    } else if name == "list_recent_events"@ {
        Ok(1)
    } else if name == "get_event"@ {
        Ok(2)
    } else if name == "get_topology"@ {
        Ok(3)
    } else if name == "list_remediation_proposals"@ {
        Ok(4)
    } else if name == "approve_remediation"@ || name == "reject_remediation"@ {
        if !allow_mutations {
            Err(disabled_text(name))
        } else if name == "approve_remediation"@ {
            Ok(5)
        } else {
            Ok(6)
        }
    } else {
        Err("unknown tool: "@ + name)
    }
}

/// The [`tool_route`] shape of a [`ToolRoute`].
pub open spec fn route_view(r: ToolRoute) -> Result<int, Seq<char>> {
    match r {
        ToolRoute::ListAgents => Ok(0),
        ToolRoute::ListRecentEvents => Ok(1),
        ToolRoute::GetEvent => Ok(2),
        ToolRoute::GetTopology => Ok(3),
        ToolRoute::ListRemediationProposals => Ok(4),
        ToolRoute::Approve => Ok(5),
        ToolRoute::Reject => Ok(6),
        ToolRoute::Refuse(c) => if c.is_error && c.content@.len() == 1 {
            match c.content@[0] {
                ContentBlock::Text { text } => Err(text@),
            }
        } else {
            Ok(-1)
        },
    }
}

/// Route a `tools/call` for `name`.
pub fn route_tool(name: &str, allow_mutations: bool) -> (r: ToolRoute)
    ensures
        route_view(r) == tool_route(name@, allow_mutations),
{
    let n = chars_of(name);
    if eq_lit(&n, "list_agents") {
        ToolRoute::ListAgents
    } else if eq_lit(&n, "list_recent_events") {
        ToolRoute::ListRecentEvents
    } else if eq_lit(&n, "get_event") {
        ToolRoute::GetEvent
    } else if eq_lit(&n, "get_topology") {
        ToolRoute::GetTopology
    } else if eq_lit(&n, "list_remediation_proposals") {
        ToolRoute::ListRemediationProposals
    } else if eq_lit(&n, "approve_remediation") || eq_lit(&n, "reject_remediation") {
        if !allow_mutations {
            let a = cat("tool `", name);
            let msg = cat(
                a.as_str(),
                "` is disabled: this MCP server runs read-only. Restart it with --allow-mutations and an admin token to enable mutations.",
            );
            ToolRoute::Refuse(CallToolResult::error(msg))
        } else if eq_lit(&n, "approve_remediation") {
            ToolRoute::Approve
        } else {
            ToolRoute::Reject
        }
    } else {
        ToolRoute::Refuse(CallToolResult::error(cat("unknown tool: ", name)))
    }
}

/// A read-only server never routes a call to a mutating handler.
pub proof fn read_only_server_refuses_mutations(name: Seq<char>)
    ensures
        tool_route(name, false) != Ok::<int, Seq<char>>(5),
        tool_route(name, false) != Ok::<int, Seq<char>>(6),
        name == "approve_remediation"@ || name == "reject_remediation"@ ==> tool_route(name, false)
            == Err::<int, Seq<char>>(disabled_text(name)),
{
    reveal_strlit("list_agents");
    reveal_strlit("list_recent_events");
    reveal_strlit("get_event");
    reveal_strlit("get_topology");
    reveal_strlit("list_remediation_proposals");
    reveal_strlit("approve_remediation");
    reveal_strlit("reject_remediation");
    assert("reject_remediation"@[0] != "list_recent_events"@[0]);
    assert("reject_remediation"@[0] != "list_agents"@[0]);
    assert("reject_remediation"@[0] != "get_event"@[0]);
    assert("reject_remediation"@[0] != "get_topology"@[0]);
    assert("reject_remediation"@[0] != "list_remediation_proposals"@[0]);
    assert("approve_remediation"@[0] != "list_agents"@[0]);
    assert("approve_remediation"@[0] != "list_recent_events"@[0]);
    assert("approve_remediation"@[0] != "get_event"@[0]);
    assert("approve_remediation"@[0] != "get_topology"@[0]);
    assert("approve_remediation"@[0] != "list_remediation_proposals"@[0]);
}

/// The `limit` argument of `list_recent_events`, as given.
#[derive(Debug, Clone, PartialEq, Eq)]
pub enum LimitArg {
    /// Absent or `null`.
    Absent,
    /// A non-negative integer.
    Integer(u64),
    /// Anything else.
    Other,
}

/// The number of events to request: the default when absent, an integer
/// (cut to 32 bits) clamped to `1..=500`, anything else an error.
pub open spec fn limit_of(arg: LimitArg) -> Result<u32, Seq<char>> {
    match arg {
        LimitArg::Absent => Ok(DEFAULT_EVENT_LIMIT),
        LimitArg::Integer(n) => {
            let t = n % 0x1_0000_0000;
            Ok(
                if t < 1 {
                    1u32
                } else if t > MAX_EVENT_LIMIT {
                    MAX_EVENT_LIMIT
                } else {
                    t as u32
                },
            )
        },
        LimitArg::Other => Err("`limit` must be an integer"@),
    }
}

/// The number of events `list_recent_events` requests for its argument.
pub fn event_limit(arg: &LimitArg) -> (r: Result<u32, String>)
    ensures
        match r {
            Ok(n) => limit_of(*arg) == Ok::<u32, Seq<char>>(n),
            Err(e) => limit_of(*arg) == Err::<u32, Seq<char>>(e@),
        },
{
    match arg {
        LimitArg::Absent => Ok(DEFAULT_EVENT_LIMIT),
        LimitArg::Integer(n) => {
            let t: u64 = *n % 0x1_0000_0000;
            Ok(
                if t < 1 {
                    1
                } else if t > MAX_EVENT_LIMIT as u64 {
                    MAX_EVENT_LIMIT
                } else {
                    t as u32
                },
            )
        },
        LimitArg::Other => Err("`limit` must be an integer".to_string()),
    }
}

/// The error text when a tool needs an `id` argument and has none.
pub fn missing_id_text() -> (s: &'static str)
    ensures
        s@ == "`id` (string UUID) is required"@,
{
    "`id` (string UUID) is required"
}

/// The index of the first event whose `id` is `id`, among the events' ids.
pub fn find_event(ids: &Vec<Option<String>>, id: &str) -> (r: Result<usize, String>)
    ensures
        match r {
            Ok(i) => i < ids@.len() && opt_chars(ids@[i as int]) == Some(id@) && forall|j: int|
                0 <= j < i ==> opt_chars(#[trigger] ids@[j]) != Some(id@),
            Err(e) => (forall|j: int| 0 <= j < ids@.len() ==> opt_chars(#[trigger] ids@[j]) != Some(id@))
                && e@ == "no event with id "@ + id@ + " in the most recent 500 events"@,
        },
{
    let mut i: usize = 0;
    while i < ids.len()
        invariant
            i <= ids@.len(),
            forall|j: int| 0 <= j < i ==> opt_chars(#[trigger] ids@[j]) != Some(id@),
        decreases ids@.len() - i,
    {
        if let Some(x) = &ids[i] {
            if str_is(x.as_str(), id) {
                return Ok(i);
            }
        }
        i = i + 1;
    }
    let a = cat("no event with id ", id);
    Err(cat(a.as_str(), " in the most recent 500 events"))
}

/// How one listed remediation record reads.
#[derive(Debug, Clone, Copy, PartialEq, Eq)]
pub enum RecordReading {
    /// A record whose decision is still pending.
    Pending,
    /// A record already approved, rejected or otherwise decided.
    Decided,
    /// Not a remediation record.
    Unreadable,
}

/// What `list_remediation_proposals` answers with.
#[derive(Debug, Clone, PartialEq, Eq)]
pub enum ProposalSelection {
    /// The control plane's list, relayed as it came.
    Raw,
    /// Only the listed records at these positions, in order.
    Only(Vec<usize>),
}

/// The positions of the pending records among `rs`, in order.
pub open spec fn pending_positions(rs: Seq<RecordReading>) -> Seq<usize>
    decreases rs.len(),
{
    if rs.len() == 0 {
        seq![]
    } else if rs.last() == RecordReading::Pending {
        pending_positions(rs.drop_last()).push((rs.len() - 1) as usize)
    } else {
        pending_positions(rs.drop_last())
    }
}

/// Which remediation records to return. With `pending_only` off, or when the
/// list is not a list of records (`readings` is `None`, or one item is
/// unreadable), the list is relayed as it came; otherwise only the pending
/// records are returned, in their order.
pub fn select_proposals(pending_only: bool, readings: &Option<Vec<RecordReading>>) -> (r:
    ProposalSelection)
    ensures
        match readings {
            Some(rs) => if pending_only && forall|i: int|
                0 <= i < rs@.len() ==> #[trigger] rs@[i] != RecordReading::Unreadable {
                r matches ProposalSelection::Only(ix) && ix@ == pending_positions(rs@)
            } else {
                r is Raw
            },
            None => r is Raw,
        },
{
    if !pending_only {
        return ProposalSelection::Raw;
    }
    let rs = match readings {
        Some(rs) => rs,
        None => return ProposalSelection::Raw,
    };
    let mut out: Vec<usize> = Vec::new();
    let mut i: usize = 0;
    while i < rs.len()
        invariant
            i <= rs@.len(),
            pending_only,
            readings matches Some(v) && v@ == rs@,
            out@ == pending_positions(rs@.take(i as int)),
            forall|j: int| 0 <= j < i ==> #[trigger] rs@[j] != RecordReading::Unreadable,
        decreases rs@.len() - i,
    {
        assert(rs@.take(i + 1).drop_last() =~= rs@.take(i as int));
        match rs[i] {
            RecordReading::Unreadable => {
                assert(rs@[i as int] == RecordReading::Unreadable);
                return ProposalSelection::Raw;
            },
            RecordReading::Pending => out.push(i),
            RecordReading::Decided => {},
        }
        i = i + 1;
    }
    assert(rs@.take(rs@.len() as int) =~= rs@);
    ProposalSelection::Only(out)
}

/// How the server answers a JSON-RPC method.
#[derive(Debug, Clone, PartialEq, Eq)]
pub enum MethodRoute {
    Initialize,
    Ping,
    ToolsList,
    ToolsCall,
    /// Answer with this error.
    NotFound(JsonRpcError),
}

/// Route a JSON-RPC method: the four known ones to their handlers, any other
/// to a method-not-found error naming it.
pub fn route_method(method: &str) -> (r: MethodRoute)
    ensures
        method@ == "initialize"@ ==> r is Initialize,
        method@ == "ping"@ ==> r is Ping,
        method@ == "tools/list"@ ==> r is ToolsList,
        method@ == "tools/call"@ ==> r is ToolsCall,
        !(method@ == "initialize"@ || method@ == "ping"@ || method@ == "tools/list"@ || method@
            == "tools/call"@) ==> (r matches MethodRoute::NotFound(e) && e.code == -32601
            && e.message@ == "method not found: "@ + method@),
{
    proof {
        reveal_strlit("initialize");
        reveal_strlit("ping");
        reveal_strlit("tools/list");
        reveal_strlit("tools/call");
        assert("initialize"@[0] != "ping"@[0]);
        assert("initialize"@[0] != "tools/list"@[0]);
        assert("initialize"@[0] != "tools/call"@[0]);
        assert("ping"@[0] != "tools/list"@[0]);
        assert("ping"@[0] != "tools/call"@[0]);
        assert("tools/list"@[6] != "tools/call"@[6]);
    }
    let m = chars_of(method);
    if eq_lit(&m, "initialize") {
        MethodRoute::Initialize
    } else if eq_lit(&m, "ping") {
        MethodRoute::Ping
    } else if eq_lit(&m, "tools/list") {
        MethodRoute::ToolsList
    } else if eq_lit(&m, "tools/call") {
        MethodRoute::ToolsCall
    } else {
        MethodRoute::NotFound(JsonRpcError::method_not_found(method))
    }
}

/// Whether the tools capability's list can change.
#[derive(Debug, Clone, PartialEq, Eq)]
pub struct ToolsCapability {
    pub list_changed: bool,
}

/// The server's capabilities.
#[derive(Debug, Clone, PartialEq, Eq)]
pub struct ServerCapabilities {
    pub tools: ToolsCapability,
}

/// The server's name and version.
#[derive(Debug, Clone, PartialEq, Eq)]
pub struct ServerInfo {
    pub name: &'static str,
    pub version: &'static str,
}

/// The answer to `initialize`.
#[derive(Debug, Clone, PartialEq, Eq)]
pub struct InitializeResult {
    pub protocol_version: &'static str,
    pub capabilities: ServerCapabilities,
    pub server_info: ServerInfo,
    pub instructions: Option<String>,
}

/// The instructions given at `initialize`, stating whether mutations are on.
pub open spec fn instructions_text(allow_mutations: bool) -> Seq<char> {
    "Ravn control-plane bridge. Use the read tools to inspect agents, events, topology, and remediation proposals. "@
        + (if allow_mutations {
        "Mutations are ENABLED (approve/reject remediation are available and require an admin token)."@
    } else {
        "Read-only mode: mutating tools are not exposed."@
    })
}

/// The answer to `initialize` for a server of version `version`.
pub fn initialize_result(allow_mutations: bool, version: &'static str) -> (r: InitializeResult)
    ensures
        r.protocol_version@ == PROTOCOL_VERSION@,
        !r.capabilities.tools.list_changed,
        r.server_info.name@ == "ravn-mcp"@,
        r.server_info.version == version,
        opt_chars(r.instructions) == Some(instructions_text(allow_mutations)),
{
    let mode = if allow_mutations {
        "Mutations are ENABLED (approve/reject remediation are available and require an admin token)."
    } else {
        "Read-only mode: mutating tools are not exposed."
    };
    let text = cat(
        "Ravn control-plane bridge. Use the read tools to inspect agents, events, topology, and remediation proposals. ",
        mode,
    );
    InitializeResult {
        protocol_version: PROTOCOL_VERSION,
        capabilities: ServerCapabilities { tools: ToolsCapability { list_changed: false } },
        server_info: ServerInfo { name: "ravn-mcp", version },
        instructions: Some(text),
    }
}

/// A byte that percent-encoding leaves as it is.
pub open spec fn unreserved(b: u8) -> bool {
    (0x41 <= b && b <= 0x5a) || (0x61 <= b && b <= 0x7a) || (0x30 <= b && b <= 0x39) || b == 0x2d
        || b == 0x5f || b == 0x2e || b == 0x7e
}

/// The upper-case hexadecimal digit for `d` (below 16).
pub open spec fn hex_digit(d: u8) -> char {
    if d < 10 {
        (0x30 + d) as char
    } else {
        (0x41 + d - 10) as char
    }
}

/// The percent-encoding of `bytes`: unreserved bytes as their characters,
/// every other byte as `%` and two upper-case hex digits.
pub open spec fn url_encoded(bytes: Seq<u8>) -> Seq<char>
    decreases bytes.len(),
{
    if bytes.len() == 0 {
        seq![]
    } else {
        let b = bytes.last();
        url_encoded(bytes.drop_last()) + (if unreserved(b) {
            seq![b as char]
        } else {
            seq!['%', hex_digit(b / 16), hex_digit(b % 16)]
        })
    }
}

fn hex_digit_exec(d: u8) -> (c: char)
    requires
        d < 16,
    ensures
        c == hex_digit(d),
{
    if d < 10 {
        (0x30u8 + d) as char
    } else {
        (0x41u8 + d - 10) as char
    }
}

/// Percent-encode the UTF-8 bytes of `s` for a URL path or query.
pub fn urlencode(s: &str) -> (r: String)
    ensures
        r@ == url_encoded(s.spec_bytes()),
{
    let bytes = s.as_bytes();
    let mut out: Vec<char> = Vec::new();
    let mut i: usize = 0;
    while i < bytes.len()
        invariant
            i <= bytes@.len(),
            bytes@ == s.spec_bytes(),
            out@ == url_encoded(bytes@.take(i as int)),
        decreases bytes@.len() - i,
    {
        let b = bytes[i];
        assert(bytes@.take(i + 1).drop_last() =~= bytes@.take(i as int));
        assert(bytes@.take(i + 1).last() == b);
        let ghost before = out@;
        if (0x41 <= b && b <= 0x5a) || (0x61 <= b && b <= 0x7a) || (0x30 <= b && b <= 0x39) || b
            == 0x2d || b == 0x5f || b == 0x2e || b == 0x7e {
            out.push(b as char);
            assert(out@ =~= before + seq![b as char]);
        } else {
            out.push('%');
            out.push(hex_digit_exec(b / 16));
            out.push(hex_digit_exec(b % 16));
            assert(out@ =~= before + seq!['%', hex_digit(b / 16), hex_digit(b % 16)]);
        }
        i = i + 1;
    }
    assert(bytes@.take(i as int) =~= bytes@);
    string_of(&out)
}

/// Cut `s` to its first `max` bytes, marked with `…` when cut; `max` must
/// fall on a character boundary when the text is longer.
pub fn truncate(s: &str, max: usize) -> (r: String)
    requires
        s.spec_bytes().len() > max ==> is_char_boundary(s.spec_bytes(), max as int),
    ensures
        s.spec_bytes().len() <= max ==> r@ == s@,
        s.spec_bytes().len() > max ==> exists|h: Seq<char>|
            encode_utf8(h) == s.spec_bytes().take(max as int) && r@ == h.push('\u{2026}'),
{
    let bytes = s.as_bytes();
    if bytes.len() <= max {
        return s.to_string();
    }
    let (head, _) = s.split_at(max);
    let r = cat(head, "\u{2026}");
    proof {
        reveal_strlit("\u{2026}");
        assert(r@ =~= head@.push('\u{2026}'));
        assert(encode_utf8(head@) == head.spec_bytes());
        assert(head.spec_bytes() =~= s.spec_bytes().take(max as int));
    }
    r
}

/// `s` without its trailing `/` characters.
pub open spec fn trim_slashes(s: Seq<char>) -> Seq<char>
    decreases s.len(),
{
    if s.len() > 0 && s.last() == '/' {
        trim_slashes(s.drop_last())
    } else {
        s
    }
}

/// The control-plane base URL as the client keeps it: without trailing `/`.
pub fn base_url_of(url: &str) -> (r: String)
    ensures
        r@ == trim_slashes(url@),
{
    let v = chars_of(url);
    let mut end = v.len();
    assert(v@.take(end as int) =~= v@);
    while end > 0 && v[end - 1] == '/'
        invariant
            end <= v@.len(),
            v@ == url@,
            trim_slashes(url@) == trim_slashes(v@.take(end as int)),
        decreases end,
    {
        assert(v@.take(end as int).drop_last() =~= v@.take(end - 1));
        end = end - 1;
    }
    string_of(&slice_range(&v, 0, end))
}

/// The path listing at most `limit` recent events.
pub fn events_path(limit: u32) -> (p: String)
    ensures
        p@ == "/api/events?limit="@ + crate::text::dec(limit as nat),
{
    let mut v = chars_of("/api/events?limit=");
    let d = crate::text::dec_chars(limit as u64);
    crate::text::push_chars(&mut v, &d);
    string_of(&v)
}

/// The topology path, grouped by a label key when one is given.
pub fn topology_path(group_by: Option<&str>) -> (p: String)
    ensures
        match group_by {
            Some(k) => p@ == "/api/topology?group_by="@ + url_encoded(k.spec_bytes()),
            None => p@ == "/api/topology"@,
        },
{
    match group_by {
        Some(k) => {
            let e = urlencode(k);
            cat("/api/topology?group_by=", e.as_str())
        },
        None => "/api/topology".to_string(),
    }
}

/// The path deciding remediation `id`: approving it, or rejecting it.
pub fn decision_path(id: &str, approve: bool) -> (p: String)
    ensures
        p@ == "/api/remediations/"@ + url_encoded(id.spec_bytes()) + (if approve {
            "/approve"@
        } else {
            "/reject"@
        }),
{
    let e = urlencode(id);
    let a = cat("/api/remediations/", e.as_str());
    if approve {
        cat(a.as_str(), "/approve")
    } else {
        cat(a.as_str(), "/reject")
    }
}

/// The hint added to a control-plane refusal: how to fix a missing or
/// invalid token (401) or a token without the admin role (403).
pub open spec fn status_hint(code: u16) -> Seq<char> {
    if code == 401 {
        " (missing or invalid token \u{2014} set RAVN_MCP_TOKEN to a control-plane bearer token)"@
    } else if code == 403 {
        " (token lacks the required role \u{2014} mutations need an admin-scoped token)"@
    } else {
        ""@
    }
}

/// The error for a failed control-plane response with status `status`
/// (its code and reason, as shown), for `url`, quoting at most the first 500
/// bytes of the response body.
pub fn control_plane_error(status: &str, code: u16, url: &str, body: &str) -> (e: String)
    requires
        body.spec_bytes().len() > 500 ==> is_char_boundary(body.spec_bytes(), 500),
    ensures
        exists|quoted: Seq<char>|
            e@ == "control plane returned "@ + status@ + " for "@ + url@ + status_hint(code) + ": "@
                + quoted && (body.spec_bytes().len() <= 500 ==> quoted == body@) && (
            body.spec_bytes().len() > 500 ==> exists|h: Seq<char>|
                encode_utf8(h) == body.spec_bytes().take(500) && quoted == h.push('\u{2026}')),
{
    let hint = if code == 401 {
        " (missing or invalid token \u{2014} set RAVN_MCP_TOKEN to a control-plane bearer token)"
    } else if code == 403 {
        " (token lacks the required role \u{2014} mutations need an admin-scoped token)"
    } else {
        ""
    };
    let quoted = truncate(body, 500);
    let a = cat("control plane returned ", status);
    let b = cat(a.as_str(), " for ");
    let c = cat(b.as_str(), url);
    let d = cat(c.as_str(), hint);
    let f = cat(d.as_str(), ": ");
    let e = cat(f.as_str(), quoted.as_str());
    assert(hint@ == status_hint(code));
    assert(e@ == "control plane returned "@ + status@ + " for "@ + url@ + status_hint(code) + ": "@
        + quoted@);
    e
}

} // verus!
