use mcpw::catalog::{ConfigError, Tool, ToolCatalog, ToolDefinition};
use mcpw::dispatch::{
    handle_line, tool_call_response, Incoming, Outcome, ServerIdentity, Step, ToolCall,
};
use mcpw::mapping::{build_args, ArgValue, CallArgument, CommandParameterMapping};
use mcpw::response::{
    encode_response, int_to_text, jsonrpc_error_str, mcp_init_string, mcp_tools_list_string,
    tools_array_text, RequestId, Response, ServerResult,
};

fn bound(param: &str, switch: Option<&str>) -> CommandParameterMapping {
    CommandParameterMapping {
        mcp_param: Some(param.to_string()),
        command_param: switch.map(|s| s.to_string()),
    }
}

fn fixed(switch: &str) -> CommandParameterMapping {
    CommandParameterMapping { mcp_param: None, command_param: Some(switch.to_string()) }
}

fn text_arg(name: &str, value: &str) -> CallArgument {
    CallArgument { name: name.to_string(), value: ArgValue::Text(value.to_string()) }
}

fn tool(name: &str) -> Tool {
    Tool {
        name: name.to_string(),
        spec_json: format!("{{\"name\":\"{}\",\"inputSchema\":{{\"type\":\"object\"}}}}", name),
    }
}

fn definition(name: &str, command: &str, maps: Option<Vec<CommandParameterMapping>>) -> ToolDefinition {
    ToolDefinition { command: command.to_string(), command_parameters: maps, mcp_tool_spec: tool(name) }
}

fn server() -> ServerIdentity {
    ServerIdentity { name: "mcpw".to_string(), version: "0.1.0".to_string() }
}

fn request(id: RequestId, method: &str, call: Option<ToolCall>) -> Incoming {
    Incoming::Request { id, method: method.to_string(), call, line: "{}".to_string() }
}

fn reply_text(step: Step) -> String {
    match step {
        Step::Reply(r) => encode_response(&r).unwrap(),
        Step::Run(_) => panic!("expected a reply"),
    }
}

#[test]
fn switches_and_values_keep_declared_order() {
    let maps = vec![bound("A", Some("-x")), fixed("-y"), bound("B", None)];
    let args = vec![text_arg("A", "foo")];
    assert_eq!(build_args(&maps, &args), vec!["-x", "foo", "-y"]);
}

#[test]
fn all_bound_values_present() {
    let maps = vec![bound("A", Some("-x")), fixed("-y"), bound("B", None)];
    let args = vec![text_arg("B", "bar"), text_arg("A", "foo")];
    assert_eq!(build_args(&maps, &args), vec!["-x", "foo", "-y", "bar"]);
}

#[test]
fn non_text_value_is_its_json_text() {
    let maps = vec![bound("n", Some("--count"))];
    let args = vec![CallArgument { name: "n".to_string(), value: ArgValue::Json("3".to_string()) }];
    assert_eq!(build_args(&maps, &args), vec!["--count", "3"]);
}

#[test]
fn no_mappings_no_arguments() {
    assert!(build_args(&vec![], &vec![text_arg("A", "foo")]).is_empty());
}

#[test]
fn echo_call_runs_and_reports_output() {
    let cat = ToolCatalog::new(vec![definition("echo", "echo", Some(vec![bound("text", None)]))])
        .ok()
        .unwrap();
    let call = ToolCall { name: "echo".to_string(), arguments: vec![text_arg("text", "hi")] };
    let step = handle_line(&cat, &server(), &request(RequestId::Number(4), "tools/call", Some(call)));
    let inv = match step {
        Step::Run(inv) => inv,
        Step::Reply(_) => panic!("expected a command to run"),
    };
    assert_eq!(inv.command, "echo");
    assert_eq!(inv.args, vec!["hi"]);
    let r = tool_call_response(inv.id, Outcome::Success("hi\n".to_string()));
    assert_eq!(
        encode_response(&r).unwrap(),
        "{\"jsonrpc\":\"2.0\",\"id\":4,\"result\":{\"content\":[{\"type\":\"text\",\"text\":\"hi\\n\"}],\"isError\":false}}"
    );
}

#[test]
fn failing_command_is_flagged_content() {
    let r = tool_call_response(RequestId::Number(7), Outcome::Failure("boom".to_string()));
    match &r {
        Response::Success(s) => match &s.result {
            ServerResult::CallToolResult { text, is_error } => {
                assert_eq!(text, "boom");
                assert!(*is_error);
            }
            _ => panic!("expected a tool call result"),
        },
        Response::Failure(_) => panic!("a failed command is not an error envelope"),
    }
    assert_eq!(
        encode_response(&r).unwrap(),
        "{\"jsonrpc\":\"2.0\",\"id\":7,\"result\":{\"content\":[{\"type\":\"text\",\"text\":\"boom\"}],\"isError\":true}}"
    );
}

#[test]
fn spawn_failure_is_flagged_content() {
    let r = tool_call_response(RequestId::Number(1), Outcome::SpawnError("not found".to_string()));
    assert_eq!(
        encode_response(&r).unwrap(),
        "{\"jsonrpc\":\"2.0\",\"id\":1,\"result\":{\"content\":[{\"type\":\"text\",\"text\":\"System level error: not found\"}],\"isError\":true}}"
    );
}

#[test]
fn bad_line_then_good_line() {
    let cat = ToolCatalog::new(vec![definition("echo", "echo", None)]).ok().unwrap();
    let bad = Incoming::Unparseable { line: "not json".to_string() };
    assert_eq!(
        reply_text(handle_line(&cat, &server(), &bad)),
        "{\"jsonrpc\":\"2.0\",\"id\":-1,\"error\":{\"code\":-32700,\"message\":\"Parsing of request failed (check conformance with MCP Schema): not json\"}}"
    );
    let next = request(RequestId::Number(2), "tools/list", None);
    assert_eq!(
        reply_text(handle_line(&cat, &server(), &next)),
        "{\"jsonrpc\":\"2.0\",\"id\":2,\"result\":{\"tools\":[{\"name\":\"echo\",\"inputSchema\":{\"type\":\"object\"}}]}}"
    );
}

#[test]
fn listing_in_declaration_order() {
    let cat = ToolCatalog::new(vec![
        definition("zeta", "z", None),
        definition("alpha", "a", None),
        definition("mid", "m", None),
    ])
    .ok()
    .unwrap();
    let names: Vec<String> = cat.list_all().into_iter().map(|t| t.name).collect();
    assert_eq!(names, vec!["zeta", "alpha", "mid"]);
    let text = reply_text(handle_line(&cat, &server(), &request(RequestId::Text("l".to_string()), "tools/list", None)));
    let z = text.find("zeta").unwrap();
    let a = text.find("alpha").unwrap();
    let m = text.find("mid").unwrap();
    assert!(z < a && a < m);
    assert!(!text.contains("nextCursor"));
    assert!(text.starts_with("{\"jsonrpc\":\"2.0\",\"id\":\"l\",\"result\":{\"tools\":["));
}

#[test]
fn empty_listing() {
    let cat = ToolCatalog::new(vec![]).ok().unwrap();
    assert_eq!(
        reply_text(handle_line(&cat, &server(), &request(RequestId::Number(0), "tools/list", None))),
        "{\"jsonrpc\":\"2.0\",\"id\":0,\"result\":{\"tools\":[]}}"
    );
}

#[test]
fn initialize_is_fixed_for_any_id() {
    let cat = ToolCatalog::new(vec![definition("echo", "echo", None)]).ok().unwrap();
    let expected_result = "{\"protocolVersion\":\"2024-11-05\",\"capabilities\":{\"prompts\":{\"listChanged\":false},\"resources\":{\"subscribe\":false,\"listChanged\":false},\"tools\":{\"listChanged\":false},\"logging\":{}},\"serverInfo\":{\"name\":\"mcpw\",\"version\":\"0.1.0\"},\"tools\":[{\"name\":\"echo\",\"inputSchema\":{\"type\":\"object\"}}]}";
    let a = reply_text(handle_line(&cat, &server(), &request(RequestId::Number(1), "initialize", None)));
    let b = reply_text(handle_line(&cat, &server(), &request(RequestId::Text("x-9".to_string()), "initialize", None)));
    assert_eq!(a, format!("{{\"jsonrpc\":\"2.0\",\"id\":1,\"result\":{}}}", expected_result));
    assert_eq!(b, format!("{{\"jsonrpc\":\"2.0\",\"id\":\"x-9\",\"result\":{}}}", expected_result));
}

#[test]
fn unknown_tool_is_method_not_found() {
    let cat = ToolCatalog::new(vec![definition("echo", "echo", None)]).ok().unwrap();
    let call = ToolCall { name: "rm".to_string(), arguments: vec![] };
    let step = handle_line(&cat, &server(), &request(RequestId::Number(3), "tools/call", Some(call)));
    match &step {
        Step::Reply(Response::Failure(e)) => {
            assert_eq!(e.code, -32601);
            assert!(e.message.contains("rm"));
        }
        _ => panic!("expected an error reply"),
    }
    assert_eq!(
        reply_text(step),
        "{\"jsonrpc\":\"2.0\",\"id\":3,\"error\":{\"code\":-32601,\"message\":\"Method name not found: rm\"}}"
    );
}

#[test]
fn unknown_method_is_method_not_found() {
    let cat = ToolCatalog::new(vec![]).ok().unwrap();
    assert_eq!(
        reply_text(handle_line(&cat, &server(), &request(RequestId::Number(5), "prompts/list", None))),
        "{\"jsonrpc\":\"2.0\",\"id\":5,\"error\":{\"code\":-32601,\"message\":\"MCP method not found: prompts/list\"}}"
    );
}

#[test]
fn unreadable_tool_call_is_parse_error() {
    let cat = ToolCatalog::new(vec![]).ok().unwrap();
    let incoming = Incoming::Request {
        id: RequestId::Number(6),
        method: "tools/call".to_string(),
        call: None,
        line: "{\"method\":\"tools/call\"}".to_string(),
    };
    assert_eq!(
        reply_text(handle_line(&cat, &server(), &incoming)),
        "{\"jsonrpc\":\"2.0\",\"id\":6,\"error\":{\"code\":-32700,\"message\":\"Parsing of tool call request failed: {\\\"method\\\":\\\"tools/call\\\"}\"}}"
    );
}

#[test]
fn duplicate_tool_names_are_refused() {
    let r = ToolCatalog::new(vec![definition("a", "x", None), definition("b", "y", None), definition("a", "z", None)]);
    match r {
        Err(ConfigError::DuplicateName(n)) => assert_eq!(n, "a"),
        _ => panic!("expected a duplicate name"),
    }
}

#[test]
fn empty_mapping_is_refused() {
    let empty = CommandParameterMapping { mcp_param: None, command_param: None };
    let r = ToolCatalog::new(vec![definition("a", "x", Some(vec![fixed("-v"), empty]))]);
    match r {
        Err(ConfigError::InvalidMapping(n)) => assert_eq!(n, "a"),
        _ => panic!("expected an invalid mapping"),
    }
}

#[test]
fn lookup_finds_by_name() {
    let cat = ToolCatalog::new(vec![definition("a", "x", None), definition("b", "y", None)]).ok().unwrap();
    assert_eq!(cat.lookup(&"b".to_string()).unwrap().command, "y");
    assert!(cat.lookup(&"c".to_string()).is_none());
}

#[test]
fn integer_text() {
    assert_eq!(int_to_text(0), "0");
    assert_eq!(int_to_text(-1), "-1");
    assert_eq!(int_to_text(12345), "12345");
    assert_eq!(int_to_text(i64::MIN), "-9223372036854775808");
    assert_eq!(int_to_text(i64::MAX), "9223372036854775807");
}

#[test]
fn error_message_is_escaped() {
    assert_eq!(
        jsonrpc_error_str(RequestId::Text("q\"1".to_string()), -32601, "say \"hi\"".to_string()).unwrap(),
        "{\"jsonrpc\":\"2.0\",\"id\":\"q\\\"1\",\"error\":{\"code\":-32601,\"message\":\"say \\\"hi\\\"\"}}"
    );
}

#[test]
fn named_encoders() {
    let tools = vec![tool("a"), tool("b")];
    assert_eq!(
        tools_array_text(&tools),
        "[{\"name\":\"a\",\"inputSchema\":{\"type\":\"object\"}},{\"name\":\"b\",\"inputSchema\":{\"type\":\"object\"}}]"
    );
    assert_eq!(
        mcp_tools_list_string(RequestId::Number(9), &vec![]).unwrap(),
        "{\"jsonrpc\":\"2.0\",\"id\":9,\"result\":{\"tools\":[]}}"
    );
    let init = mcp_init_string(RequestId::Number(1), "n", "v", &vec![]).unwrap();
    assert!(init.starts_with("{\"jsonrpc\":\"2.0\",\"id\":1,\"result\":{\"protocolVersion\":\"2024-11-05\""));
    assert!(init.ends_with("\"serverInfo\":{\"name\":\"n\",\"version\":\"v\"},\"tools\":[]}}"));
}

#[test]
fn control_characters_are_escaped() {
    let r = tool_call_response(RequestId::Number(2), Outcome::Success("a\nb\t\u{1}\\".to_string()));
    let text = encode_response(&r).unwrap();
    assert_eq!(
        text,
        "{\"jsonrpc\":\"2.0\",\"id\":2,\"result\":{\"content\":[{\"type\":\"text\",\"text\":\"a\\nb\\t\\u0001\\\\\"}],\"isError\":false}}"
    );
    assert!(!text.contains('\n'));
}

#[test]
fn text_id_is_quoted() {
    assert_eq!(
        mcp_tools_list_string(RequestId::Text("7".to_string()), &vec![]).unwrap(),
        "{\"jsonrpc\":\"2.0\",\"id\":\"7\",\"result\":{\"tools\":[]}}"
    );
}
