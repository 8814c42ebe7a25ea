//! JSON-RPC response envelopes and their text.
//!
//! The layout of every envelope is fixed here; the escaping of free text into
//! a JSON string literal is serde_json's.

use vstd::prelude::*;
use crate::catalog::Tool;

verus! {

#[verifier::external_type_specification]
#[verifier::external_body]
pub struct ExJsonError(serde_json::Error);

pub open spec fn hex_digit(d: nat) -> char {
    seq!['0', '1', '2', '3', '4', '5', '6', '7', '8', '9', 'a', 'b', 'c', 'd', 'e', 'f'][d as int]
}

/// How one character stands inside a JSON string literal: quote and backslash
/// behind a backslash; backspace, tab, line feed, form feed and carriage
/// return as their short escapes; any other control character as `\u00`
/// and two lower-case hex digits; every other character as itself.
pub open spec fn escaped_char(c: char) -> Seq<char> {
    if c == '"' {
        seq!['\\', '"']
    } else if c == '\\' {
        seq!['\\', '\\']
    } else if c == '\u{08}' {
        seq!['\\', 'b']
    } else if c == '\t' {
        seq!['\\', 't']
    } else if c == '\n' {
        seq!['\\', 'n']
    } else if c == '\u{0C}' {
        seq!['\\', 'f']
    } else if c == '\r' {
        seq!['\\', 'r']
    } else if (c as u32) < 0x20 {
        seq!['\\', 'u', '0', '0', hex_digit((c as u32 / 16) as nat), hex_digit((c as u32 % 16) as nat)]
    } else {
        seq![c]
    }
}

/// Each character of a text, escaped, in order.
pub open spec fn escaped(s: Seq<char>) -> Seq<char>
    decreases s.len(),
{
    if s.len() == 0 {
        seq![]
    } else {
        escaped_char(s[0]) + escaped(s.drop_first())
    }
}

/// The JSON string literal of a text: the escaped text between double quotes.
pub open spec fn json_string_text(s: Seq<char>) -> Seq<char> {
    seq!['"'] + escaped(s) + seq!['"']
}

/// Relies on serde_json::to_string on a `str`: it writes the text as a JSON
/// string literal, escaped as `escaped_char` says, into a `Vec`, which never
/// fails to take the bytes.
#[verifier::external_body]
fn quote(s: &str) -> (r: Result<String, serde_json::Error>)
    ensures
        r is Ok,
        r matches Ok(t) ==> t@ == json_string_text(s@),
{
    serde_json::to_string(s)
}

pub const ERROR_HEAD: &'static str = "{\"jsonrpc\":\"2.0\",\"id\":";
pub const ERROR_CODE: &'static str = ",\"error\":{\"code\":";
pub const ERROR_MESSAGE: &'static str = ",\"message\":";
pub const ERROR_TAIL: &'static str = "}}";
pub const RESULT_HEAD: &'static str = "{\"jsonrpc\":\"2.0\",\"id\":";
pub const RESULT_BODY: &'static str = ",\"result\":";
pub const RESULT_TAIL: &'static str = "}";
pub const INIT_HEAD: &'static str = "{\"protocolVersion\":\"2024-11-05\",\"capabilities\":{\"prompts\":{\"listChanged\":false},\"resources\":{\"subscribe\":false,\"listChanged\":false},\"tools\":{\"listChanged\":false},\"logging\":{}},\"serverInfo\":{\"name\":";
pub const INIT_VERSION: &'static str = ",\"version\":";
pub const INIT_TOOLS: &'static str = "},\"tools\":";
pub const INIT_TAIL: &'static str = "}";
pub const LIST_HEAD: &'static str = "{\"tools\":";
pub const LIST_TAIL: &'static str = "}";
pub const CALL_HEAD: &'static str = "{\"content\":[{\"type\":\"text\",\"text\":";
pub const CALL_FLAG: &'static str = "}],\"isError\":";
pub const CALL_TAIL: &'static str = "}";

/// The identifier of a request, echoed in its response as it came.
pub enum RequestId {
    Number(i64),
    Text(String),
}

impl Clone for RequestId {
    fn clone(&self) -> (r: RequestId)
        ensures
            r == *self,
    {
        match self {
            RequestId::Number(n) => RequestId::Number(*n),
            RequestId::Text(s) => RequestId::Text(s.clone()),
        }
    }
}

/// The result of a successful request.
pub enum ServerResult {
    /// The capability handshake.
    InitializeResult { server_name: String, server_version: String, tools: Vec<Tool> },
    /// The tool listing; never paginated.
    ListToolsResult { tools: Vec<Tool> },
    /// The outcome of a tool call: one text block, and whether it reports a failure.
    CallToolResult { text: String, is_error: bool },
}

/// A success envelope.
pub struct JsonRpcServerResult {
    pub id: RequestId,
    pub result: ServerResult,
}

/// An error envelope.
pub struct JsonrpcError {
    pub id: RequestId,
    pub code: i64,
    pub message: String,
}

/// One response line.
pub enum Response {
    Success(JsonRpcServerResult),
    Failure(JsonrpcError),
}

pub open spec fn digit_char(d: nat) -> char {
    seq!['0', '1', '2', '3', '4', '5', '6', '7', '8', '9'][d as int]
}

/// Decimal digits of a natural number, most significant first.
pub open spec fn nat_text(n: nat) -> Seq<char>
    decreases n,
{
    if n < 10 {
        seq![digit_char(n)]
    } else {
        nat_text(n / 10) + seq![digit_char(n % 10)]
    }
}

/// Decimal text of an integer, with a leading minus sign when negative.
pub open spec fn int_text(n: int) -> Seq<char> {
    if n < 0 {
        seq!['-'] + nat_text((-n) as nat)
    } else {
        nat_text(n as nat)
    }
}

pub open spec fn bool_text(b: bool) -> Seq<char> {
    if b {
        seq!['t', 'r', 'u', 'e']
    } else {
        seq!['f', 'a', 'l', 's', 'e']
    }
}

pub open spec fn id_text(id: RequestId) -> Seq<char> {
    match id {
        RequestId::Number(n) => int_text(n as int),
        RequestId::Text(s) => json_string_text(s@),
    }
}

/// The tool specifications separated by commas, in order.
pub open spec fn joined_specs(tools: Seq<Tool>) -> Seq<char>
    decreases tools.len(),
{
    if tools.len() == 0 {
        seq![]
    } else if tools.len() == 1 {
        tools[0].spec_json@
    } else {
        joined_specs(tools.drop_last()) + seq![','] + tools.last().spec_json@
    }
}

pub open spec fn tools_array(tools: Seq<Tool>) -> Seq<char> {
    seq!['['] + joined_specs(tools) + seq![']']
}

pub open spec fn error_envelope(id: Seq<char>, code: Seq<char>, message: Seq<char>) -> Seq<char> {
    ERROR_HEAD@ + id + ERROR_CODE@ + code + ERROR_MESSAGE@ + message + ERROR_TAIL@
}

pub open spec fn success_envelope(id: Seq<char>, result: Seq<char>) -> Seq<char> {
    RESULT_HEAD@ + id + RESULT_BODY@ + result + RESULT_TAIL@
}

/// The fixed part of every handshake result: protocol revision and
/// capabilities (prompts, resources and tools present, none announcing changes).
pub open spec fn init_preamble() -> Seq<char> {
    INIT_HEAD@
}

pub open spec fn init_result(name: Seq<char>, version: Seq<char>, tools: Seq<char>) -> Seq<char> {
    init_preamble() + name + INIT_VERSION@ + version + INIT_TOOLS@ + tools + INIT_TAIL@
}

pub open spec fn list_result(tools: Seq<char>) -> Seq<char> {
    LIST_HEAD@ + tools + LIST_TAIL@
}

pub open spec fn call_result(text: Seq<char>, is_error: bool) -> Seq<char> {
    CALL_HEAD@ + text + CALL_FLAG@ + bool_text(is_error) + CALL_TAIL@
}

pub open spec fn result_text(r: ServerResult) -> Seq<char> {
    match r {
        ServerResult::InitializeResult { server_name, server_version, tools } => init_result(
            json_string_text(server_name@),
            json_string_text(server_version@),
            tools_array(tools@),
        ),
        ServerResult::ListToolsResult { tools } => list_result(tools_array(tools@)),
        ServerResult::CallToolResult { text, is_error } => call_result(
            json_string_text(text@),
            is_error,
        ),
    }
}

/// The line that carries a response.
pub open spec fn response_text(r: Response) -> Seq<char> {
    match r {
        Response::Success(s) => success_envelope(id_text(s.id), result_text(s.result)),
        Response::Failure(e) => error_envelope(
            id_text(e.id),
            int_text(e.code as int),
            json_string_text(e.message@),
        ),
    }
}

fn digit_str(d: u64) -> (r: &'static str)
    requires
        d < 10,
    ensures
        r@ == seq![digit_char(d as nat)],
{
    proof {
        reveal_strlit("0");
        reveal_strlit("1");
        reveal_strlit("2");
        reveal_strlit("3");
        reveal_strlit("4");
        reveal_strlit("5");
        reveal_strlit("6");
        reveal_strlit("7");
        reveal_strlit("8");
        reveal_strlit("9");
    }
    let r = match d {
        0 => "0",
        1 => "1",
        2 => "2",
        3 => "3",
        4 => "4",
        5 => "5",
        6 => "6",
        7 => "7",
        8 => "8",
        _ => "9",
    };
    assert(r@ =~= seq![digit_char(d as nat)]);
    r
}

fn nat_to_text(n: u64) -> (r: String)
    ensures
        r@ == nat_text(n as nat),
    decreases n,
{
    let mut s = if n < 10 {
        String::new()
    } else {
        nat_to_text(n / 10)
    };
    s.append(digit_str(n % 10));
    proof {
        if n < 10 {
            assert(s@ =~= nat_text(n as nat));
        }
    }
    s
}

/// Decimal text of an integer.
pub fn int_to_text(n: i64) -> (r: String)
    ensures
        r@ == int_text(n as int),
{
    if n < 0 {
        let mag: u64 = (0i128 - n as i128) as u64;
        let mut s = String::from_str("-");
        proof {
            reveal_strlit("-");
        }
        s.append(nat_to_text(mag).as_str());
        assert(s@ =~= int_text(n as int));
        s
    } else {
        nat_to_text(n as u64)
    }
}

fn bool_to_text(b: bool) -> (r: String)
    ensures
        r@ == bool_text(b),
{
    proof {
        reveal_strlit("true");
        reveal_strlit("false");
    }
    let r = if b {
        String::from_str("true")
    } else {
        String::from_str("false")
    };
    assert(r@ =~= bool_text(b));
    r
}

/// The comma-separated tool specifications, in a JSON array.
pub fn tools_array_text(tools: &Vec<Tool>) -> (r: String)
    ensures
        r@ == tools_array(tools@),
{
    proof {
        reveal_strlit("[");
        reveal_strlit("]");
    }
    let mut s = String::from_str("[");
    let n = tools.len();
    let mut i: usize = 0;
    while i < n
        invariant
            n == tools@.len(),
            i <= n,
            s@ == seq!['['] + joined_specs(tools@.take(i as int)),
        decreases n - i,
    {
        let ghost before = s@;
        if i > 0 {
            s.append(",");
        }
        s.append(tools[i].spec_json.as_str());
        proof {
            let t = tools@.take(i as int + 1);
            assert(t.drop_last() =~= tools@.take(i as int));
            assert(t.last() == tools@[i as int]);
            if i == 0 {
                assert(t.len() == 1 && t[0] == tools@[0]);
            } else {
                reveal_strlit(",");
                assert(","@ =~= seq![',']);
                assert(before == seq!['['] + joined_specs(t.drop_last()));
            }
            assert(s@ =~= seq!['['] + joined_specs(t));
        }
        i += 1;
    }
    s.append("]");
    proof {
        assert(tools@.take(n as int) =~= tools@);
    }
    assert(s@ =~= tools_array(tools@));
    s
}

/// Assembles an error envelope from its parts, already in JSON form.
pub fn error_envelope_string(id_json: &str, code: i64, message_json: &str) -> (r: String)
    ensures
        r@ == error_envelope(id_json@, int_text(code as int), message_json@),
{
    let mut s = String::from_str(ERROR_HEAD);
    s.append(id_json);
    s.append(ERROR_CODE);
    s.append(int_to_text(code).as_str());
    s.append(ERROR_MESSAGE);
    s.append(message_json);
    s.append(ERROR_TAIL);
    assert(s@ =~= error_envelope(id_json@, int_text(code as int), message_json@));
    s
}

/// Assembles a success envelope from the request id and the result, both
/// already in JSON form.
pub fn success_envelope_string(id_json: &str, result_json: &str) -> (r: String)
    ensures
        r@ == success_envelope(id_json@, result_json@),
{
    let mut s = String::from_str(RESULT_HEAD);
    s.append(id_json);
    s.append(RESULT_BODY);
    s.append(result_json);
    s.append(RESULT_TAIL);
    assert(s@ =~= success_envelope(id_json@, result_json@));
    s
}

/// Assembles a handshake result from the server's name and version, already
/// JSON string literals, and the tool listing.
pub fn init_result_string(name_json: &str, version_json: &str, tools: &Vec<Tool>) -> (r: String)
    ensures
        r@ == init_result(name_json@, version_json@, tools_array(tools@)),
{
    let mut s = String::from_str(INIT_HEAD);
    s.append(name_json);
    s.append(INIT_VERSION);
    s.append(version_json);
    s.append(INIT_TOOLS);
    s.append(tools_array_text(tools).as_str());
    s.append(INIT_TAIL);
    assert(s@ =~= init_result(name_json@, version_json@, tools_array(tools@)));
    s
}

/// Assembles a tool listing result; it never carries a pagination cursor.
pub fn list_result_string(tools: &Vec<Tool>) -> (r: String)
    ensures
        r@ == list_result(tools_array(tools@)),
{
    let mut s = String::from_str(LIST_HEAD);
    s.append(tools_array_text(tools).as_str());
    s.append(LIST_TAIL);
    assert(s@ =~= list_result(tools_array(tools@)));
    s
}

/// Assembles a tool call result from its text, already a JSON string literal,
/// and its failure flag.
pub fn call_result_string(text_json: &str, is_error: bool) -> (r: String)
    ensures
        r@ == call_result(text_json@, is_error),
{
    let mut s = String::from_str(CALL_HEAD);
    s.append(text_json);
    s.append(CALL_FLAG);
    s.append(bool_to_text(is_error).as_str());
    s.append(CALL_TAIL);
    assert(s@ =~= call_result(text_json@, is_error));
    s
}

/// The JSON form of a request id.
pub fn id_json(id: &RequestId) -> (r: Result<String, serde_json::Error>)
    ensures
        r matches Ok(t) && t@ == id_text(*id),
{
    match id {
        RequestId::Number(n) => Ok(int_to_text(*n)),
        RequestId::Text(s) => quote(s.as_str()),
    }
}

/// The text of a server result.
pub fn result_json(result: &ServerResult) -> (r: Result<String, serde_json::Error>)
    ensures
        r matches Ok(t) && t@ == result_text(*result),
{
    match result {
        ServerResult::InitializeResult { server_name, server_version, tools } => {
            let name = match quote(server_name.as_str()) {
                Ok(q) => q,
                Err(e) => return Err(e),
            };
            let version = match quote(server_version.as_str()) {
                Ok(q) => q,
                Err(e) => return Err(e),
            };
            Ok(init_result_string(name.as_str(), version.as_str(), tools))
        },
        ServerResult::ListToolsResult { tools } => Ok(list_result_string(tools)),
        ServerResult::CallToolResult { text, is_error } => {
            let q = match quote(text.as_str()) {
                Ok(q) => q,
                Err(e) => return Err(e),
            };
            Ok(call_result_string(q.as_str(), *is_error))
        },
    }
}

/// The line that carries a response.
pub fn encode_response(response: &Response) -> (r: Result<String, serde_json::Error>)
    ensures
        r matches Ok(t) && t@ == response_text(*response),
{
    match response {
        Response::Success(s) => {
            let id = match id_json(&s.id) {
                Ok(t) => t,
                Err(e) => return Err(e),
            };
            let result = match result_json(&s.result) {
                Ok(t) => t,
                Err(e) => return Err(e),
            };
            Ok(success_envelope_string(id.as_str(), result.as_str()))
        },
        Response::Failure(f) => {
            let id = match id_json(&f.id) {
                Ok(t) => t,
                Err(e) => return Err(e),
            };
            let message = match quote(f.message.as_str()) {
                Ok(t) => t,
                Err(e) => return Err(e),
            };
            Ok(error_envelope_string(id.as_str(), f.code, message.as_str()))
        },
    }
}

/// An error response line.
pub fn jsonrpc_error_str(request_id: RequestId, error_code: i64, message: String) -> (r: Result<
    String,
    serde_json::Error,
>)
    ensures
        r matches Ok(t) && t@ == error_envelope(
            id_text(request_id),
            int_text(error_code as int),
            json_string_text(message@),
        ),
{
    let response = Response::Failure(JsonrpcError { id: request_id, code: error_code, message });
    encode_response(&response)
}

/// The response line to a tool listing request: every tool, in order, with
/// no pagination cursor.
pub fn mcp_tools_list_string(id: RequestId, tools: &Vec<Tool>) -> (r: Result<
    String,
    serde_json::Error,
>)
    ensures
        r matches Ok(t) && t@ == success_envelope(id_text(id), list_result(tools_array(tools@))),
{
    let id_t = match id_json(&id) {
        Ok(t) => t,
        Err(e) => return Err(e),
    };
    let result = list_result_string(tools);
    Ok(success_envelope_string(id_t.as_str(), result.as_str()))
}

/// The response line to a handshake request.
pub fn mcp_init_string(id: RequestId, server_name: &str, server_version: &str, tools: &Vec<Tool>) -> (r:
    Result<String, serde_json::Error>)
    ensures
        r matches Ok(t) && t@ == success_envelope(
            id_text(id),
            init_result(
                json_string_text(server_name@),
                json_string_text(server_version@),
                tools_array(tools@),
            ),
        ),
{
    let id_t = match id_json(&id) {
        Ok(t) => t,
        Err(e) => return Err(e),
    };
    let name = match quote(server_name) {
        Ok(t) => t,
        Err(e) => return Err(e),
    };
    let version = match quote(server_version) {
        Ok(t) => t,
        Err(e) => return Err(e),
    };
    let result = init_result_string(name.as_str(), version.as_str(), tools);
    Ok(success_envelope_string(id_t.as_str(), result.as_str()))
}

/// The text holds no line feed.
pub open spec fn single_line(t: Seq<char>) -> bool {
    forall|i: int| 0 <= i < t.len() ==> t[i] != '\n'
}

proof fn lemma_join_one_line(a: Seq<char>, b: Seq<char>)
    requires
        single_line(a),
        single_line(b),
    ensures
        single_line(a + b),
{
    assert forall|i: int| 0 <= i < (a + b).len() implies (a + b)[i] != '\n' by {
        if i >= a.len() {
            assert((a + b)[i] == b[i - a.len()]);
        }
    }
}

proof fn lemma_layout_one_line()
    ensures
        single_line(ERROR_HEAD@),
        single_line(ERROR_CODE@),
        single_line(ERROR_MESSAGE@),
        single_line(ERROR_TAIL@),
        single_line(RESULT_HEAD@),
        single_line(RESULT_BODY@),
        single_line(RESULT_TAIL@),
        single_line(INIT_HEAD@),
        single_line(INIT_VERSION@),
        single_line(INIT_TOOLS@),
        single_line(INIT_TAIL@),
        single_line(LIST_HEAD@),
        single_line(LIST_TAIL@),
        single_line(CALL_HEAD@),
        single_line(CALL_FLAG@),
        single_line(CALL_TAIL@),
{
    reveal_strlit("{\"jsonrpc\":\"2.0\",\"id\":");
    reveal_strlit(",\"error\":{\"code\":");
    reveal_strlit(",\"message\":");
    reveal_strlit("}}");
    reveal_strlit(",\"result\":");
    reveal_strlit("}");
    reveal_strlit("{\"protocolVersion\":\"2024-11-05\",\"capabilities\":{\"prompts\":{\"listChanged\":false},\"resources\":{\"subscribe\":false,\"listChanged\":false},\"tools\":{\"listChanged\":false},\"logging\":{}},\"serverInfo\":{\"name\":");
    reveal_strlit(",\"version\":");
    reveal_strlit("},\"tools\":");
    reveal_strlit("{\"tools\":");
    reveal_strlit("{\"content\":[{\"type\":\"text\",\"text\":");
    reveal_strlit("}],\"isError\":");
}

proof fn lemma_escaped_one_line(s: Seq<char>)
    ensures
        single_line(escaped(s)),
    decreases s.len(),
{
    if s.len() > 0 {
        lemma_escaped_one_line(s.drop_first());
        assert(single_line(escaped_char(s[0])));
        lemma_join_one_line(escaped_char(s[0]), escaped(s.drop_first()));
    }
}

/// The escape of one character starts the text unambiguously: which character
/// it was, and what follows it, can be read back.
proof fn lemma_escaped_char_prefix(x: char, y: char, r1: Seq<char>, r2: Seq<char>)
    requires
        escaped_char(x) + r1 == escaped_char(y) + r2,
    ensures
        x == y,
        r1 == r2,
{
    let ex = escaped_char(x);
    let ey = escaped_char(y);
    let t = ex + r1;
    assert(t[0] == ex[0] && t[0] == ey[0]);
    if ex.len() > 1 {
        assert(t[1] == ex[1]);
    }
    if ey.len() > 1 {
        assert(t[1] == ey[1]);
    }
    if ex.len() == 6 && ey.len() == 6 {
        assert(t[4] == ex[4] && t[4] == ey[4]);
        assert(t[5] == ex[5] && t[5] == ey[5]);
        assert((x as u32) == (x as u32 / 16) * 16 + x as u32 % 16);
        assert((y as u32) == (y as u32 / 16) * 16 + y as u32 % 16);
    }
    assert(ex.len() == ey.len());
    assert(x == y);
    assert(r1 =~= t.subrange(ex.len() as int, t.len() as int));
    assert(r2 =~= t.subrange(ey.len() as int, t.len() as int));
}

proof fn lemma_escaped_injective(a: Seq<char>, b: Seq<char>)
    requires
        escaped(a) == escaped(b),
    ensures
        a == b,
    decreases a.len(),
{
    if a.len() == 0 {
        if b.len() > 0 {
            assert(escaped(b).len() > 0);
        }
        assert(a =~= b);
    } else {
        if b.len() == 0 {
            assert(escaped(a).len() > 0);
        }
        lemma_escaped_char_prefix(a[0], b[0], escaped(a.drop_first()), escaped(b.drop_first()));
        lemma_escaped_injective(a.drop_first(), b.drop_first());
        assert(a =~= seq![a[0]] + a.drop_first());
        assert(b =~= seq![b[0]] + b.drop_first());
    }
}

/// Quoting loses nothing: two texts with the same JSON string literal are the
/// same text.
pub proof fn lemma_string_literal_injective(a: Seq<char>, b: Seq<char>)
    requires
        json_string_text(a) == json_string_text(b),
    ensures
        a == b,
{
    let ta = json_string_text(a);
    assert(escaped(a) =~= ta.subrange(1, ta.len() - 1));
    assert(escaped(b) =~= ta.subrange(1, ta.len() - 1));
    lemma_escaped_injective(a, b);
}

/// A JSON string literal never holds a line feed: serde_json escapes it.
pub proof fn lemma_string_literal_one_line(s: Seq<char>)
    ensures
        single_line(json_string_text(s)),
{
    lemma_escaped_one_line(s);
    lemma_join_one_line(seq!['"'], escaped(s));
    lemma_join_one_line(seq!['"'] + escaped(s), seq!['"']);
}

proof fn lemma_nat_text_one_line(n: nat)
    ensures
        single_line(nat_text(n)),
    decreases n,
{
    if n >= 10 {
        lemma_nat_text_one_line(n / 10);
        lemma_join_one_line(nat_text(n / 10), seq![digit_char(n % 10)]);
    }
}

proof fn lemma_int_text_one_line(n: int)
    ensures
        single_line(int_text(n)),
{
    if n < 0 {
        lemma_nat_text_one_line((-n) as nat);
        lemma_join_one_line(seq!['-'], nat_text((-n) as nat));
    } else {
        lemma_nat_text_one_line(n as nat);
    }
}

proof fn lemma_id_one_line(id: RequestId)
    ensures
        single_line(id_text(id)),
{
    match id {
        RequestId::Number(n) => lemma_int_text_one_line(n as int),
        RequestId::Text(s) => lemma_string_literal_one_line(s@),
    }
}

/// Every tool specification text is a single line.
pub open spec fn specs_one_line(tools: Seq<Tool>) -> bool {
    forall|i: int| 0 <= i < tools.len() ==> single_line(#[trigger] tools[i].spec_json@)
}

proof fn lemma_tools_one_line(tools: Seq<Tool>)
    requires
        specs_one_line(tools),
    ensures
        single_line(tools_array(tools)),
{
    lemma_joined_one_line(tools);
    lemma_join_one_line(seq!['['], joined_specs(tools));
    lemma_join_one_line(seq!['['] + joined_specs(tools), seq![']']);
}

proof fn lemma_joined_one_line(tools: Seq<Tool>)
    requires
        specs_one_line(tools),
    ensures
        single_line(joined_specs(tools)),
    decreases tools.len(),
{
    if tools.len() == 1 {
        assert(single_line(tools[0].spec_json@));
    } else if tools.len() > 1 {
        let d = tools.drop_last();
        assert forall|i: int| 0 <= i < d.len() implies single_line(#[trigger] d[i].spec_json@) by {
            assert(d[i] == tools[i]);
        }
        lemma_joined_one_line(d);
        assert(single_line(tools.last().spec_json@));
        lemma_join_one_line(joined_specs(d), seq![',']);
        lemma_join_one_line(joined_specs(d) + seq![','], tools.last().spec_json@);
    }
}

/// The tool specifications that a response carries.
pub open spec fn response_tools(r: Response) -> Seq<Tool> {
    match r {
        Response::Success(s) => match s.result {
            ServerResult::InitializeResult { tools, .. } => tools@,
            ServerResult::ListToolsResult { tools } => tools@,
            _ => seq![],
        },
        _ => seq![],
    }
}

/// Every response is one line, whatever the ids, names, messages and command
/// output it carries, as long as the tool specifications it lists are single
/// lines: so each request is answered by exactly one output line.
pub proof fn response_is_one_line(r: Response)
    requires
        specs_one_line(response_tools(r)),
    ensures
        single_line(response_text(r)),
{
    lemma_layout_one_line();
    match r {
        Response::Success(s) => {
            lemma_id_one_line(s.id);
            let body = result_text(s.result);
            match s.result {
                ServerResult::InitializeResult { server_name, server_version, tools } => {
                    lemma_string_literal_one_line(server_name@);
                    lemma_string_literal_one_line(server_version@);
                    lemma_tools_one_line(tools@);
                    let a = INIT_HEAD@ + json_string_text(server_name@);
                    lemma_join_one_line(INIT_HEAD@, json_string_text(server_name@));
                    lemma_join_one_line(a, INIT_VERSION@);
                    lemma_join_one_line(a + INIT_VERSION@, json_string_text(server_version@));
                    let b = a + INIT_VERSION@ + json_string_text(server_version@);
                    lemma_join_one_line(b, INIT_TOOLS@);
                    lemma_join_one_line(b + INIT_TOOLS@, tools_array(tools@));
                    lemma_join_one_line(b + INIT_TOOLS@ + tools_array(tools@), INIT_TAIL@);
                },
                ServerResult::ListToolsResult { tools } => {
                    lemma_tools_one_line(tools@);
                    lemma_join_one_line(LIST_HEAD@, tools_array(tools@));
                    lemma_join_one_line(LIST_HEAD@ + tools_array(tools@), LIST_TAIL@);
                },
                ServerResult::CallToolResult { text, is_error } => {
                    lemma_string_literal_one_line(text@);
                    let a = CALL_HEAD@ + json_string_text(text@);
                    lemma_join_one_line(CALL_HEAD@, json_string_text(text@));
                    lemma_join_one_line(a, CALL_FLAG@);
                    assert(single_line(bool_text(is_error)));
                    lemma_join_one_line(a + CALL_FLAG@, bool_text(is_error));
                    lemma_join_one_line(a + CALL_FLAG@ + bool_text(is_error), CALL_TAIL@);
                },
            }
            assert(single_line(body));
            lemma_join_one_line(RESULT_HEAD@, id_text(s.id));
            lemma_join_one_line(RESULT_HEAD@ + id_text(s.id), RESULT_BODY@);
            lemma_join_one_line(RESULT_HEAD@ + id_text(s.id) + RESULT_BODY@, body);
            lemma_join_one_line(RESULT_HEAD@ + id_text(s.id) + RESULT_BODY@ + body, RESULT_TAIL@);
        },
        Response::Failure(e) => {
            lemma_id_one_line(e.id);
            lemma_int_text_one_line(e.code as int);
            lemma_string_literal_one_line(e.message@);
            let a = ERROR_HEAD@ + id_text(e.id);
            lemma_join_one_line(ERROR_HEAD@, id_text(e.id));
            lemma_join_one_line(a, ERROR_CODE@);
            lemma_join_one_line(a + ERROR_CODE@, int_text(e.code as int));
            let b = a + ERROR_CODE@ + int_text(e.code as int);
            lemma_join_one_line(b, ERROR_MESSAGE@);
            lemma_join_one_line(b + ERROR_MESSAGE@, json_string_text(e.message@));
            lemma_join_one_line(b + ERROR_MESSAGE@ + json_string_text(e.message@), ERROR_TAIL@);
        },
    }
}

} // verus!
