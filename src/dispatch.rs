//! The per-line request dispatcher and the tool-call outcome.
//!
//! The dispatcher keeps no state between lines: each parsed line, with the
//! read-only catalog, decides one step, either a reply or a command to run.
//! Running the command is left to the host; its outcome then becomes the
//! reply.

use vstd::prelude::*;
use crate::catalog::{ToolCatalog, ToolDefinition, lookup_spec, specs_of};
use crate::mapping::{CallArgument, build_args, argv_of, mappings_view, strings_view};
use crate::response::{
    RequestId, Response, JsonRpcServerResult, JsonrpcError, ServerResult, response_text,
    success_envelope, id_text, init_result, list_result, call_result, tools_array,
    json_string_text, INIT_HEAD,
};
use crate::catalog::lemma_lookup_none;

verus! {

/// JSON-RPC code of a request that could not be parsed.
pub const PARSE_ERROR: i64 = -32700;
/// JSON-RPC code of an unknown method, and of an unknown tool.
pub const METHOD_NOT_FOUND: i64 = -32601;
/// The id answered when a line could not be read as a request at all.
pub const UNKNOWN_ID: i64 = -1;

pub const PARSE_FAILED_MESSAGE: &'static str = "Parsing of request failed (check conformance with MCP Schema): ";
pub const CALL_PARSE_FAILED_MESSAGE: &'static str = "Parsing of tool call request failed: ";
pub const METHOD_NOT_FOUND_MESSAGE: &'static str = "MCP method not found: ";
pub const TOOL_NOT_FOUND_MESSAGE: &'static str = "Method name not found: ";
pub const SPAWN_ERROR_MESSAGE: &'static str = "System level error: ";

pub const INITIALIZE: &'static str = "initialize";
pub const TOOLS_LIST: &'static str = "tools/list";
pub const TOOLS_CALL: &'static str = "tools/call";

/// The body of a tool call: which tool, and its arguments.
pub struct ToolCall {
    pub name: String,
    pub arguments: Vec<CallArgument>,
}

/// One input line, as far as it could be parsed.
pub enum Incoming {
    /// Not a JSON-RPC request at all.
    Unparseable { line: String },
    /// A request envelope. `call` holds its body read as a tool call, when it
    /// reads as one.
    Request { id: RequestId, method: String, call: Option<ToolCall>, line: String },
}

/// The name and version the server reports in the handshake.
pub struct ServerIdentity {
    pub name: String,
    pub version: String,
}

/// A command to run for a tool call, and the request it answers.
pub struct Invocation {
    pub id: RequestId,
    pub command: String,
    pub args: Vec<String>,
}

/// What the dispatcher decided for one line.
pub enum Step {
    Reply(Response),
    Run(Invocation),
}

/// How running a command ended.
pub enum Outcome {
    /// It exited with success; its standard output.
    Success(String),
    /// It exited with failure; its standard error.
    Failure(String),
    /// It could not be started; why.
    SpawnError(String),
}

/// The step is an error reply with this id, code and message.
pub open spec fn is_error_reply(s: Step, id: RequestId, code: int, message: Seq<char>) -> bool {
    match s {
        Step::Reply(Response::Failure(e)) => e.id == id && e.code == code && e.message@ == message,
        _ => false,
    }
}

/// The step that a line calls for, given the declared tools.
pub open spec fn dispatch_ok(
    tools: Seq<ToolDefinition>,
    server: ServerIdentity,
    incoming: Incoming,
    s: Step,
) -> bool {
    match incoming {
        Incoming::Unparseable { line } => is_error_reply(
            s,
            RequestId::Number(UNKNOWN_ID),
            PARSE_ERROR as int,
            PARSE_FAILED_MESSAGE@ + line@,
        ),
        Incoming::Request { id, method, call, line } => if method@ == INITIALIZE@ {
            match s {
                Step::Reply(
                    Response::Success(r),
                ) => r.id == id && match r.result {
                    ServerResult::InitializeResult {
                        server_name,
                        server_version,
                        tools: ts,
                    } => server_name@ == server.name@ && server_version@ == server.version@ && ts@
                        == specs_of(tools),
                    _ => false,
                },
                _ => false,
            }
        } else if method@ == TOOLS_LIST@ {
            match s {
                Step::Reply(Response::Success(r)) => r.id == id && match r.result {
                    ServerResult::ListToolsResult { tools: ts } => ts@ == specs_of(tools),
                    _ => false,
                },
                _ => false,
            }
        } else if method@ == TOOLS_CALL@ {
            match call {
                None => is_error_reply(
                    s,
                    id,
                    PARSE_ERROR as int,
                    CALL_PARSE_FAILED_MESSAGE@ + line@,
                ),
                Some(c) => match lookup_spec(tools, c.name@) {
                    None => is_error_reply(
                        s,
                        id,
                        METHOD_NOT_FOUND as int,
                        TOOL_NOT_FOUND_MESSAGE@ + c.name@,
                    ),
                    Some(d) => match s {
                        Step::Run(inv) => inv.id == id && inv.command@ == d.command@
                            && strings_view(inv.args@) == argv_of(
                            mappings_view(d.mappings()),
                            c.arguments@,
                        ),
                        _ => false,
                    },
                },
            }
        } else {
            is_error_reply(s, id, METHOD_NOT_FOUND as int, METHOD_NOT_FOUND_MESSAGE@ + method@)
        },
    }
}

/// The text block of a tool call's outcome.
pub open spec fn outcome_text(o: Outcome) -> Seq<char> {
    match o {
        Outcome::Success(out) => out@,
        Outcome::Failure(err) => err@,
        Outcome::SpawnError(why) => SPAWN_ERROR_MESSAGE@ + why@,
    }
}

fn join_text(a: &str, b: &str) -> (r: String)
    ensures
        r@ == a@ + b@,
{
    let mut s = String::from_str(a);
    s.append(b);
    s
}

fn error_step(id: RequestId, code: i64, message: String) -> (s: Step)
    ensures
        is_error_reply(s, id, code as int, message@),
{
    Step::Reply(Response::Failure(JsonrpcError { id, code, message }))
}

/// Decides what one input line calls for: the handshake, the tool listing, a
/// command to run for a tool call, or an error reply.
pub fn handle_line(catalog: &ToolCatalog, server: &ServerIdentity, incoming: &Incoming) -> (s: Step)
    ensures
        dispatch_ok(catalog@, *server, *incoming, s),
{
    match incoming {
        Incoming::Unparseable { line } => error_step(
            RequestId::Number(UNKNOWN_ID),
            PARSE_ERROR,
            join_text(PARSE_FAILED_MESSAGE, line.as_str()),
        ),
        Incoming::Request { id, method, call, line } => {
            if *method == String::from_str(INITIALIZE) {
                let result = ServerResult::InitializeResult {
                    server_name: server.name.clone(),
                    server_version: server.version.clone(),
                    tools: catalog.list_all(),
                };
                Step::Reply(Response::Success(JsonRpcServerResult { id: id.clone(), result }))
            } else if *method == String::from_str(TOOLS_LIST) {
                let result = ServerResult::ListToolsResult { tools: catalog.list_all() };
                Step::Reply(Response::Success(JsonRpcServerResult { id: id.clone(), result }))
            } else if *method == String::from_str(TOOLS_CALL) {
                match call {
                    None => error_step(
                        id.clone(),
                        PARSE_ERROR,
                        join_text(CALL_PARSE_FAILED_MESSAGE, line.as_str()),
                    ),
                    Some(c) => match catalog.lookup(&c.name) {
                        None => error_step(
                            id.clone(),
                            METHOD_NOT_FOUND,
                            join_text(TOOL_NOT_FOUND_MESSAGE, c.name.as_str()),
                        ),
                        Some(d) => {
                            let args = match &d.command_parameters {
                                Some(ms) => build_args(ms, &c.arguments),
                                None => Vec::new(),
                            };
                            proof {
                                if d.command_parameters is None {
                                    assert(strings_view(args@) =~= argv_of(
                                        mappings_view(d.mappings()),
                                        c.arguments@,
                                    ));
                                }
                            }
                            Step::Run(Invocation { id: id.clone(), command: d.command.clone(), args })
                        },
                    },
                }
            } else {
                error_step(
                    id.clone(),
                    METHOD_NOT_FOUND,
                    join_text(METHOD_NOT_FOUND_MESSAGE, method.as_str()),
                )
            }
        },
    }
}

/// What the reply to a tool call holds: one text block with the outcome's text,
/// flagged as an error exactly when the command did not succeed.
pub open spec fn call_response_ok(id: RequestId, outcome: Outcome, r: Response) -> bool {
    match r {
        Response::Success(s) => s.id == id && match s.result {
            ServerResult::CallToolResult { text, is_error } => text@ == outcome_text(outcome)
                && is_error == !(outcome is Success),
            _ => false,
        },
        _ => false,
    }
}

/// The reply to a tool call once its command has run: one text block, the
/// standard output on success, else the failure text, flagged as an error
/// exactly when the command did not succeed. A failed command is still a
/// successful JSON-RPC response.
pub fn tool_call_response(id: RequestId, outcome: Outcome) -> (r: Response)
    ensures
        call_response_ok(id, outcome, r),
{
    let (text, is_error) = match outcome {
        Outcome::Success(out) => (out, false),
        Outcome::Failure(err) => (err, true),
        Outcome::SpawnError(why) => (join_text(SPAWN_ERROR_MESSAGE, why.as_str()), true),
    };
    Response::Success(
        JsonRpcServerResult { id, result: ServerResult::CallToolResult { text, is_error } },
    )
}

/// The three method names are distinct.
proof fn lemma_methods_distinct()
    ensures
        INITIALIZE@ != TOOLS_LIST@,
        INITIALIZE@ != TOOLS_CALL@,
        TOOLS_LIST@ != TOOLS_CALL@,
{
    reveal_strlit("initialize");
    reveal_strlit("tools/list");
    reveal_strlit("tools/call");
    assert(INITIALIZE@[0] != TOOLS_LIST@[0]);
    assert(INITIALIZE@[0] != TOOLS_CALL@[0]);
    assert(TOOLS_LIST@[6] != TOOLS_CALL@[6]);
}

/// `needle` occurs somewhere in `hay`.
pub open spec fn contains(hay: Seq<char>, needle: Seq<char>) -> bool {
    exists|k: int| 0 <= k && k + needle.len() <= hay.len() && #[trigger] hay.subrange(k, k + needle.len()) == needle
}

/// Every handshake is answered with the fixed protocol revision and the fixed
/// capability set; the request id is only echoed, and nothing else in the
/// answer depends on it.
pub proof fn initialize_answer_is_fixed(
    tools: Seq<ToolDefinition>,
    server: ServerIdentity,
    id: RequestId,
    method: String,
    call: Option<ToolCall>,
    line: String,
    s: Step,
)
    requires
        method@ == INITIALIZE@,
        dispatch_ok(tools, server, Incoming::Request { id, method, call, line }, s),
    ensures
        s matches Step::Reply(r) && response_text(r) == success_envelope(
            id_text(id),
            init_result(
                json_string_text(server.name@),
                json_string_text(server.version@),
                tools_array(specs_of(tools)),
            ),
        ),
        init_result(
            json_string_text(server.name@),
            json_string_text(server.version@),
            tools_array(specs_of(tools)),
        ).take(INIT_HEAD@.len() as int) == INIT_HEAD@,
{
    let rest = init_result(
        json_string_text(server.name@),
        json_string_text(server.version@),
        tools_array(specs_of(tools)),
    );
    assert(rest.take(INIT_HEAD@.len() as int) =~= INIT_HEAD@);
}

/// A tool call that names a tool the catalog lacks is answered with a
/// method-not-found error, keyed to the request, whose message names the tool.
pub proof fn unknown_tool_is_not_found(
    tools: Seq<ToolDefinition>,
    server: ServerIdentity,
    id: RequestId,
    method: String,
    call: ToolCall,
    line: String,
    s: Step,
)
    requires
        method@ == TOOLS_CALL@,
        forall|i: int| 0 <= i < tools.len() ==> #[trigger] tools[i].name() != call.name@,
        dispatch_ok(tools, server, Incoming::Request { id, method, call: Some(call), line }, s),
    ensures
        s matches Step::Reply(Response::Failure(e)) && e.id == id && e.code == METHOD_NOT_FOUND
            && contains(e.message@, call.name@),
{
    lemma_methods_distinct();
    lemma_lookup_none(tools, call.name@);
    let m = TOOL_NOT_FOUND_MESSAGE@ + call.name@;
    let k = TOOL_NOT_FOUND_MESSAGE@.len() as int;
    assert(m.subrange(k, k + call.name@.len()) =~= call.name@);
}

/// The reply to a finished tool call is a successful response whose one text
/// block is the outcome's text: the standard output when the command
/// succeeded, with the error flag off; the standard error when it exited with
/// failure, with the flag on. A failing command is never an error envelope.
pub proof fn call_outcome_is_content(id: RequestId, outcome: Outcome, r: Response)
    requires
        call_response_ok(id, outcome, r),
    ensures
        r is Success,
        response_text(r) == success_envelope(
            id_text(id),
            call_result(json_string_text(outcome_text(outcome)), !(outcome is Success)),
        ),
        outcome matches Outcome::Success(out) ==> response_text(r) == success_envelope(
            id_text(id),
            call_result(json_string_text(out@), false),
        ),
        outcome matches Outcome::Failure(err) ==> response_text(r) == success_envelope(
            id_text(id),
            call_result(json_string_text(err@), true),
        ),
{
}

/// Each line of a session is answered by its own step, given the catalog.
pub open spec fn session_ok(
    tools: Seq<ToolDefinition>,
    server: ServerIdentity,
    lines: Seq<Incoming>,
    steps: Seq<Step>,
) -> bool {
    &&& steps.len() == lines.len()
    &&& forall|i: int| 0 <= i < lines.len() ==> dispatch_ok(tools, server, #[trigger] lines[i], steps[i])
}

/// A line that cannot be parsed gets a parse-error answer and ends nothing:
/// every line still gets exactly one answer, and taking the bad line out of
/// the session leaves every other line's answer as it was.
pub proof fn bad_line_is_isolated(
    tools: Seq<ToolDefinition>,
    server: ServerIdentity,
    lines: Seq<Incoming>,
    steps: Seq<Step>,
    k: int,
)
    requires
        session_ok(tools, server, lines, steps),
        0 <= k < lines.len(),
        lines[k] is Unparseable,
    ensures
        steps[k] matches Step::Reply(Response::Failure(e)) && e.code == PARSE_ERROR,
        steps.len() == lines.len(),
        session_ok(tools, server, lines.remove(k), steps.remove(k)),
{
    assert(dispatch_ok(tools, server, lines[k], steps[k]));
    let l2 = lines.remove(k);
    let s2 = steps.remove(k);
    assert forall|i: int| 0 <= i < l2.len() implies dispatch_ok(tools, server, #[trigger] l2[i], s2[i]) by {
        if i < k {
            assert(l2[i] == lines[i] && s2[i] == steps[i]);
        } else {
            assert(l2[i] == lines[i + 1] && s2[i] == steps[i + 1]);
        }
    }
}

/// The tool listing holds every declared tool's specification, in the order of
/// declaration, and no pagination cursor.
pub proof fn listing_keeps_declaration_order(
    tools: Seq<ToolDefinition>,
    server: ServerIdentity,
    id: RequestId,
    method: String,
    call: Option<ToolCall>,
    line: String,
    s: Step,
)
    requires
        method@ == TOOLS_LIST@,
        dispatch_ok(tools, server, Incoming::Request { id, method, call, line }, s),
    ensures
        s matches Step::Reply(r) && response_text(r) == success_envelope(
            id_text(id),
            list_result(tools_array(specs_of(tools))),
        ),
        specs_of(tools).len() == tools.len(),
        forall|i: int| 0 <= i < tools.len() ==> #[trigger] specs_of(tools)[i] == tools[i].mcp_tool_spec,
{
    lemma_methods_distinct();
}

} // verus!
