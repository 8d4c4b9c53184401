use ravn::mcp::{
    base_url_of, control_plane_error, decision_path, event_limit, events_path, find_event,
    help_text, initialize_result, mutating_tools, read_only_tools, route_method, route_tool,
    tool_catalog, topology_path, truncate, urlencode, usage, CallToolResult, Config,
    ContentBlock, JsonRpcError, LimitArg, McpEnv, MethodRoute, ToolRoute, PROTOCOL_VERSION,
};
use ravn::mcp::{select_proposals, ProposalSelection, RecordReading};

fn no_env() -> McpEnv {
    McpEnv { url: None, token: None, allow_mutations: None, log: None, rust_log: None }
}

fn parse(args: &[&str]) -> Result<Option<Config>, String> {
    let args: Vec<String> = args.iter().map(|s| s.to_string()).collect();
    Config::parse(&args, &no_env())
}

#[test]
fn base_url_trailing_slash_is_trimmed() {
    assert_eq!(base_url_of("http://x:8080/"), "http://x:8080");
    assert_eq!(base_url_of("http://x:8080//"), "http://x:8080");
    assert_eq!(base_url_of("http://x:8080"), "http://x:8080");
}

#[test]
fn urlencode_passes_uuid_through() {
    let id = "018f0000-0000-7000-8000-000000000000";
    assert_eq!(urlencode(id), id);
}

#[test]
fn urlencode_escapes_reserved() {
    assert_eq!(urlencode("a/b?c"), "a%2Fb%3Fc");
    assert_eq!(urlencode("a b~"), "a%20b~");
}

#[test]
fn truncate_keeps_short_strings() {
    assert_eq!(truncate("abc", 10), "abc");
    assert!(truncate("abcdefghij", 3).starts_with("abc"));
    assert_eq!(truncate("abcdefghij", 3), "abc\u{2026}");
}

#[test]
fn defaults_when_no_flags() {
    let cfg = parse(&[]).unwrap().unwrap();
    assert!(!cfg.allow_mutations);
    assert_eq!(cfg.base_url, "http://127.0.0.1:8080");
    assert!(cfg.token.is_none());
    assert_eq!(cfg.log, "warn");
}

#[test]
fn url_flag_space_form() {
    let cfg = parse(&["--url", "http://host:9000"]).unwrap().unwrap();
    assert_eq!(cfg.base_url, "http://host:9000");
}

#[test]
fn url_flag_equals_form() {
    let cfg = parse(&["--url=http://host:9000"]).unwrap().unwrap();
    assert_eq!(cfg.base_url, "http://host:9000");
}

#[test]
fn token_flag() {
    let cfg = parse(&["--token", "secret"]).unwrap().unwrap();
    assert_eq!(cfg.token.as_deref(), Some("secret"));
}

#[test]
fn allow_mutations_flag() {
    let cfg = parse(&["--allow-mutations"]).unwrap().unwrap();
    assert!(cfg.allow_mutations);
}

#[test]
fn help_returns_none() {
    assert!(parse(&["--help"]).unwrap().is_none());
    assert!(parse(&["-h"]).unwrap().is_none());
}

#[test]
fn unknown_flag_errors() {
    let e = parse(&["--nope"]).unwrap_err();
    assert!(e.starts_with("unknown argument: --nope\n\n"));
    assert_eq!(e, usage("unknown argument: --nope"));
}

#[test]
fn missing_value_errors() {
    assert!(parse(&["--url"]).is_err());
    assert_eq!(parse(&["--token"]).unwrap_err(), usage("--token needs a value"));
}

#[test]
fn flags_override_the_environment() {
    let env = McpEnv {
        url: Some("http://env:1".into()),
        token: Some("".into()),
        allow_mutations: Some("yes".into()),
        log: None,
        rust_log: Some("debug".into()),
    };
    let cfg = Config::parse(&vec![], &env).unwrap().unwrap();
    assert_eq!(cfg.base_url, "http://env:1");
    assert!(cfg.token.is_none());
    assert!(cfg.allow_mutations);
    assert_eq!(cfg.log, "debug");
    let cfg = Config::parse(&vec!["--url".to_string(), "http://flag:2".to_string()], &env)
        .unwrap()
        .unwrap();
    assert_eq!(cfg.base_url, "http://flag:2");
}

#[test]
fn help_text_starts_with_the_program_line() {
    assert!(help_text().starts_with("ravn-mcp \u{2014} the Ravn MCP server"));
}

const READ_ONLY: [&str; 5] = [
    "list_agents",
    "list_recent_events",
    "get_event",
    "get_topology",
    "list_remediation_proposals",
];

#[test]
fn read_only_catalog_excludes_mutations() {
    let tools = tool_catalog(false);
    let names: Vec<&str> = tools.iter().map(|t| t.name).collect();
    for n in READ_ONLY {
        assert!(names.contains(&n));
    }
    assert!(!names.contains(&"approve_remediation"));
    assert!(!names.contains(&"reject_remediation"));
    assert_eq!(tools.len(), 5);
}

#[test]
fn mutating_catalog_adds_two_gated_tools() {
    let tools = tool_catalog(true);
    let names: Vec<&str> = tools.iter().map(|t| t.name).collect();
    assert!(names.contains(&"approve_remediation"));
    assert!(names.contains(&"reject_remediation"));
    assert_eq!(tools.len(), 7);
}

#[test]
fn read_only_tools_are_annotated_read_only() {
    for tool in read_only_tools() {
        assert!(tool.annotations.read_only_hint, "{} must be read-only", tool.name);
    }
}

#[test]
fn mutating_tools_are_annotated_not_read_only() {
    for tool in mutating_tools() {
        assert!(!tool.annotations.read_only_hint, "{} must not be read-only", tool.name);
    }
}

#[test]
fn every_tool_has_an_object_input_schema() {
    for tool in tool_catalog(true) {
        assert!(
            tool.input_schema.starts_with("{\"type\":\"object\","),
            "{} inputSchema must be a JSON Schema object",
            tool.name
        );
        assert!(tool.input_schema.contains("\"properties\":{"));
    }
}

#[test]
fn exactly_five_read_only_and_two_gated_tools() {
    assert_eq!(read_only_tools().len(), 5);
    assert_eq!(mutating_tools().len(), 2);
}

fn refusal_text(route: ToolRoute) -> String {
    match route {
        ToolRoute::Refuse(CallToolResult { content, is_error }) => {
            assert!(is_error);
            match &content[0] {
                ContentBlock::Text { text } => text.clone(),
            }
        }
        _ => panic!("expected a refusal"),
    }
}

#[test]
fn calling_gated_tool_in_read_only_mode_is_a_tool_error() {
    let text = refusal_text(route_tool("approve_remediation", false));
    assert!(text.contains("read-only"));
    assert!(text.starts_with("tool `approve_remediation` is disabled"));
    assert!(matches!(route_tool("approve_remediation", true), ToolRoute::Approve));
    assert!(matches!(route_tool("reject_remediation", true), ToolRoute::Reject));
}

#[test]
fn calling_unknown_tool_is_a_tool_error() {
    assert_eq!(refusal_text(route_tool("nope", true)), "unknown tool: nope");
    assert!(matches!(route_tool("get_event", false), ToolRoute::GetEvent));
}

#[test]
fn unknown_method_is_method_not_found() {
    match route_method("bogus/method") {
        MethodRoute::NotFound(JsonRpcError { code, message }) => {
            assert_eq!(code, -32601);
            assert_eq!(message, "method not found: bogus/method");
        }
        _ => panic!("expected method not found"),
    }
    assert!(matches!(route_method("tools/list"), MethodRoute::ToolsList));
    assert!(matches!(route_method("ping"), MethodRoute::Ping));
}

#[test]
fn initialize_advertises_protocol_and_identity() {
    let r = initialize_result(false, "1.2.3");
    assert_eq!(r.protocol_version, PROTOCOL_VERSION);
    assert_eq!(r.server_info.version, "1.2.3");
    assert!(r.instructions.unwrap().contains("Read-only mode"));
}

#[test]
fn limit_argument_is_clamped() {
    assert_eq!(event_limit(&LimitArg::Absent).unwrap(), 50);
    assert_eq!(event_limit(&LimitArg::Integer(0)).unwrap(), 1);
    assert_eq!(event_limit(&LimitArg::Integer(20)).unwrap(), 20);
    assert_eq!(event_limit(&LimitArg::Integer(10_000)).unwrap(), 500);
    assert_eq!(event_limit(&LimitArg::Other).unwrap_err(), "`limit` must be an integer");
}

#[test]
fn events_are_found_by_id() {
    let ids = vec![None, Some("a".to_string()), Some("b".to_string())];
    assert_eq!(find_event(&ids, "b").unwrap(), 2);
    assert_eq!(
        find_event(&ids, "c").unwrap_err(),
        "no event with id c in the most recent 500 events"
    );
}

#[test]
fn control_plane_paths_and_errors() {
    assert_eq!(events_path(25), "/api/events?limit=25");
    assert_eq!(topology_path(None), "/api/topology");
    assert_eq!(topology_path(Some("env/x")), "/api/topology?group_by=env%2Fx");
    assert_eq!(decision_path("id-1", true), "/api/remediations/id-1/approve");
    assert_eq!(decision_path("id-1", false), "/api/remediations/id-1/reject");
    assert_eq!(
        control_plane_error("404 Not Found", 404, "http://x/api", "gone"),
        "control plane returned 404 Not Found for http://x/api: gone"
    );
    let e = control_plane_error("403 Forbidden", 403, "u", "");
    assert!(e.contains("mutations need an admin-scoped token"));
    let long = "x".repeat(600);
    let e = control_plane_error("500 Internal Server Error", 500, "u", &long);
    assert!(e.ends_with(&format!("{}\u{2026}", "x".repeat(500))));
}

#[test]
fn tool_input_schemas_are_well_formed_json_schema() {
    for tool in tool_catalog(true) {
        let schema: serde_json::Value =
            serde_json::from_str(&tool.input_schema).expect("input schema is JSON");
        assert_eq!(
            schema.get("type").and_then(serde_json::Value::as_str),
            Some("object"),
            "{}: inputSchema.type must be \"object\"",
            tool.name
        );
        assert!(
            schema.get("properties").map(serde_json::Value::is_object).unwrap_or(false),
            "{}: inputSchema must have a properties object",
            tool.name
        );
    }
}

#[test]
fn catalog_annotations_and_schemas_match_each_tool() {
    for tool in read_only_tools() {
        assert!(!tool.annotations.destructive_hint, "{}", tool.name);
        assert!(tool.annotations.idempotent_hint, "{}", tool.name);
        assert!(tool.input_schema.ends_with(",\"additionalProperties\":false}"), "{}", tool.name);
    }
    for tool in mutating_tools() {
        assert!(!tool.annotations.destructive_hint, "{}", tool.name);
        assert!(!tool.annotations.idempotent_hint, "{}", tool.name);
        assert!(tool.input_schema.contains("\"required\":[\"id\"]"), "{}", tool.name);
    }
    let tools = read_only_tools();
    let get_event = tools.iter().find(|t| t.name == "get_event").unwrap();
    assert!(get_event.input_schema.contains("\"required\":[\"id\"]"));
    assert!(get_event.input_schema.contains("The event UUID."));
    assert_eq!(get_event.annotations.title, "Get event");
    let list_agents = tools.iter().find(|t| t.name == "list_agents").unwrap();
    assert!(!list_agents.input_schema.contains("required"));
    assert!(list_agents.description.starts_with("List all registered Ravn agents"));
}

#[test]
fn proposal_selection_keeps_only_pending_records_in_order() {
    let (pending, decided, unreadable) =
        (RecordReading::Pending, RecordReading::Decided, RecordReading::Unreadable);
    let readings = Some(vec![decided, pending, decided, pending]);
    assert_eq!(select_proposals(true, &readings), ProposalSelection::Only(vec![1, 3]));
    assert_eq!(select_proposals(false, &readings), ProposalSelection::Raw);
    assert_eq!(select_proposals(true, &Some(vec![pending, unreadable])), ProposalSelection::Raw);
    assert_eq!(select_proposals(true, &None), ProposalSelection::Raw);
    assert_eq!(select_proposals(true, &Some(vec![])), ProposalSelection::Only(vec![]));
}
