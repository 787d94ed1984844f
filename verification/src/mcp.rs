//! The Model Context Protocol over standard input and output: JSON-RPC 2.0, one request
//! or response per line.
use crate::json::add_item;
use crate::json::add_member;
use crate::json::line_bytes;
use crate::json::list_view;
use crate::json::max_depth;
use crate::json::members_view;
use crate::json::parsed;
use crate::json::read;
use crate::json::readable;
use crate::json::rendered;
use crate::json::to_text;
use crate::json::to_line;
use crate::json::Json;
use crate::json::JsonView;
use crate::state::option_view;
use crate::text::copy;
use crate::text::join;
use crate::text::same;
use crate::text::trim;
use crate::text::trimmed;
use vstd::prelude::*;
use vstd::string::*;

verus! {

/// The protocol version for a client that names none.
pub const DEFAULT_PROTOCOL: &'static str = "2025-06-18";

/// The error code of JSON-RPC for a method that does not exist.
pub const METHOD_NOT_FOUND: i64 = -32601;

/// The ceiling on a scan that a caller names none for, in milliseconds.
pub const DISCOVER_WAIT: u64 = 300;

/// How the server speaks of itself and of those it serves.
pub struct Brand {
    /// What an instance on the LAN is called, as in "other ... instances".
    pub agent: String,
    /// The name by which the server introduces itself.
    pub server: String,
    /// The version of the server.
    pub version: String,
}

/// What a [`Brand`] holds.
pub struct BrandView {
    pub agent: Seq<char>,
    pub server: Seq<char>,
    pub version: Seq<char>,
}

impl View for Brand {
    type V = BrandView;

    open spec fn view(&self) -> BrandView {
        BrandView { agent: self.agent@, server: self.server@, version: self.version@ }
    }
}

/// An object without members.
pub open spec fn empty_object() -> JsonView {
    JsonView::Object(Map::empty())
}

/// What `initialize` answers: the protocol version that the client names, or the default
/// one, and the server by name and version.
pub open spec fn introduction(params: JsonView, brand: BrandView) -> JsonView {
    JsonView::Object(
        map![
            "protocolVersion"@ => JsonView::Text(
                match params.text("protocolVersion"@) {
                    Some(v) => v,
                    None => DEFAULT_PROTOCOL@,
                },
            ),
            "capabilities"@ => JsonView::Object(map!["tools"@ => empty_object()]),
            "serverInfo"@ => JsonView::Object(
                map![
                    "name"@ => JsonView::Text(brand.server),
                    "version"@ => JsonView::Text(brand.version),
                ],
            ),
        ],
    )
}

/// The answer to `initialize`.
pub fn initialize_result(params: &Json, brand: &Brand) -> (r: Json)
    ensures
        r@ == introduction(params@, brand@),
{
    let proto = match params.text_member("protocolVersion") {
        Some(v) => v,
        None => copy(DEFAULT_PROTOCOL),
    };
    let nothing: Vec<(String, Json)> = Vec::new();
    let mut capabilities: Vec<(String, Json)> = Vec::new();
    add_member(&mut capabilities, "tools", Json::Object(nothing));
    let mut server: Vec<(String, Json)> = Vec::new();
    add_member(&mut server, "name", Json::text(brand.server.as_str()));
    add_member(&mut server, "version", Json::text(brand.version.as_str()));
    let mut m: Vec<(String, Json)> = Vec::new();
    add_member(&mut m, "protocolVersion", Json::Text(proto));
    add_member(&mut m, "capabilities", Json::Object(capabilities));
    add_member(&mut m, "serverInfo", Json::Object(server));
    Json::Object(m)
}

/// A schema for objects with these properties, of which these are required.
pub open spec fn schema(properties: JsonView, required: Seq<JsonView>) -> JsonView {
    JsonView::Object(
        map![
            "type"@ => JsonView::Text("object"@),
            "properties"@ => properties,
            "required"@ => JsonView::List(required),
        ],
    )
}

/// A schema for a value of a type, described.
pub open spec fn property(kind: Seq<char>, description: Seq<char>) -> JsonView {
    JsonView::Object(
        map!["type"@ => JsonView::Text(kind), "description"@ => JsonView::Text(description)],
    )
}

/// A tool as it is offered.
pub open spec fn tool(name: Seq<char>, description: Seq<char>, input: JsonView) -> JsonView {
    JsonView::Object(
        map![
            "name"@ => JsonView::Text(name),
            "description"@ => JsonView::Text(description),
            "inputSchema"@ => input,
        ],
    )
}

/// The tool that tells who this node is.
pub open spec fn whoami_tool(agent: Seq<char>) -> JsonView {
    tool(
        "lan_whoami"@,
        "This node's identity on the LAN: name, id, ip, and ports. Other "@ + agent + " instances address you by this name."@,
        schema(empty_object(), Seq::empty()),
    )
}

/// The tool that scans the LAN.
pub open spec fn discover_tool(agent: Seq<char>) -> JsonView {
    tool(
        "lan_discover"@,
        "Actively probe the LAN for other "@ + agent + " instances (multicast + broadcast burst). Returns as soon as replies go quiet — typically under 200ms. Returns the full peer table with round-trip latencies."@,
        schema(
            JsonView::Object(
                map![
                    "wait_ms"@ => property(
                        "integer"@,
                        "Ceiling on how long to wait for replies, in ms (default 300, max 5000). Early-exits when the LAN goes quiet."@,
                    ),
                ],
            ),
            Seq::empty(),
        ),
    )
}

/// The tool that lists the known peers.
pub open spec fn peers_tool() -> JsonView {
    tool(
        "lan_peers"@,
        "Instantly list peers already known from background discovery, without sending any probes. Use lan_discover for a fresh active scan."@,
        schema(empty_object(), Seq::empty()),
    )
}

/// The tool that sends a message.
pub open spec fn send_message_tool(agent: Seq<char>) -> JsonView {
    tool(
        "lan_send"@,
        "Send a text message to another "@ + agent + " instance by name or id, or to 'all' to broadcast to every known peer. Auto-discovers first if the peer isn't known yet. Delivery is acknowledged over TCP."@,
        schema(
            JsonView::Object(
                map![
                    "to"@ => property(
                        "string"@,
                        "Peer name, peer id, a unique name prefix, or 'all'"@,
                    ),
                    "message"@ => property("string"@, "The message text to deliver"@),
                ],
            ),
            Seq::empty().push(JsonView::Text("to"@)).push(JsonView::Text("message"@)),
        ),
    )
}

/// The tool that reads the messages.
pub open spec fn read_inbox_tool(agent: Seq<char>) -> JsonView {
    tool(
        "lan_inbox"@,
        "Read and clear messages received from other "@ + agent + " instances. Set wait_ms to long-poll: blocks until a message arrives or the timeout passes — use this to await a reply in a conversation."@,
        schema(
            JsonView::Object(
                map![
                    "wait_ms"@ => property(
                        "integer"@,
                        "If the inbox is empty, wait up to this many ms for a message to arrive (default 0 = return immediately, max 25000)"@,
                    ),
                ],
            ),
            Seq::empty(),
        ),
    )
}

/// The tools that the server offers.
pub open spec fn tools(agent: Seq<char>) -> Seq<JsonView> {
    Seq::empty().push(whoami_tool(agent)).push(discover_tool(agent)).push(peers_tool()).push(
        send_message_tool(agent),
    ).push(read_inbox_tool(agent))
}

fn schema_json(properties: Vec<(String, Json)>, required: Vec<Json>) -> (r: Json)
    ensures
        r@ == schema(JsonView::Object(members_view(properties@)), list_view(required@)),
{
    let mut m: Vec<(String, Json)> = Vec::new();
    add_member(&mut m, "type", Json::text("object"));
    add_member(&mut m, "properties", Json::Object(properties));
    add_member(&mut m, "required", Json::List(required));
    Json::Object(m)
}

fn property_json(kind: &str, description: &str) -> (r: Json)
    ensures
        r@ == property(kind@, description@),
{
    let mut m: Vec<(String, Json)> = Vec::new();
    add_member(&mut m, "type", Json::text(kind));
    add_member(&mut m, "description", Json::text(description));
    Json::Object(m)
}

fn tool_json(name: &str, description: &str, input: Json) -> (r: Json)
    ensures
        r@ == tool(name@, description@, input@),
{
    let mut m: Vec<(String, Json)> = Vec::new();
    add_member(&mut m, "name", Json::text(name));
    add_member(&mut m, "description", Json::text(description));
    add_member(&mut m, "inputSchema", input);
    Json::Object(m)
}

/// The tools that the server offers, with their schemas.
pub fn tool_defs(agent: &str) -> (r: Json)
    ensures
        r@ == JsonView::List(tools(agent@)),
{
    let whoami = tool_json(
        "lan_whoami",
        join(join("This node's identity on the LAN: name, id, ip, and ports. Other ", agent).as_str(), " instances address you by this name.").as_str(),
        schema_json(Vec::new(), Vec::new()),
    );
    let mut scan: Vec<(String, Json)> = Vec::new();
    add_member(
        &mut scan,
        "wait_ms",
        property_json(
            "integer",
            "Ceiling on how long to wait for replies, in ms (default 300, max 5000). Early-exits when the LAN goes quiet.",
        ),
    );
    let discover = tool_json(
        "lan_discover",
        join(join("Actively probe the LAN for other ", agent).as_str(), " instances (multicast + broadcast burst). Returns as soon as replies go quiet — typically under 200ms. Returns the full peer table with round-trip latencies.").as_str(),
        schema_json(scan, Vec::new()),
    );
    let peers = tool_json(
        "lan_peers",
        "Instantly list peers already known from background discovery, without sending any probes. Use lan_discover for a fresh active scan.",
        schema_json(Vec::new(), Vec::new()),
    );
    let mut message: Vec<(String, Json)> = Vec::new();
    add_member(
        &mut message,
        "to",
        property_json("string", "Peer name, peer id, a unique name prefix, or 'all'"),
    );
    add_member(
        &mut message,
        "message",
        property_json("string", "The message text to deliver"),
    );
    let mut both: Vec<Json> = Vec::new();
    add_item(&mut both, Json::text("to"));
    add_item(&mut both, Json::text("message"));
    let send = tool_json(
        "lan_send",
        join(join("Send a text message to another ", agent).as_str(), " instance by name or id, or to 'all' to broadcast to every known peer. Auto-discovers first if the peer isn't known yet. Delivery is acknowledged over TCP.").as_str(),
        schema_json(message, both),
    );
    let mut poll: Vec<(String, Json)> = Vec::new();
    add_member(
        &mut poll,
        "wait_ms",
        property_json(
            "integer",
            "If the inbox is empty, wait up to this many ms for a message to arrive (default 0 = return immediately, max 25000)",
        ),
    );
    let inbox = tool_json(
        "lan_inbox",
        join(join("Read and clear messages received from other ", agent).as_str(), " instances. Set wait_ms to long-poll: blocks until a message arrives or the timeout passes — use this to await a reply in a conversation.").as_str(),
        schema_json(poll, Vec::new()),
    );
    let mut list: Vec<Json> = Vec::new();
    add_item(&mut list, whoami);
    add_item(&mut list, discover);
    add_item(&mut list, peers);
    add_item(&mut list, send);
    add_item(&mut list, inbox);
    Json::List(list)
}

/// A call of a tool, with the arguments that the tool reads.
pub enum ToolCall {
    Whoami,
    /// With the ceiling on the scan in milliseconds.
    Discover(u64),
    Peers,
    Send { to: Option<String>, message: Option<String> },
    /// With the time to wait for a message in milliseconds, as it was asked for.
    Inbox(u64),
}

/// What a [`ToolCall`] holds.
pub enum CallView {
    Whoami,
    Discover(u64),
    Peers,
    Send { to: Option<Seq<char>>, message: Option<Seq<char>> },
    Inbox(u64),
}

impl View for ToolCall {
    type V = CallView;

    open spec fn view(&self) -> CallView {
        match self {
            ToolCall::Whoami => CallView::Whoami,
            ToolCall::Discover(ms) => CallView::Discover(*ms),
            ToolCall::Peers => CallView::Peers,
            ToolCall::Send { to, message } => CallView::Send {
                to: option_view(*to),
                message: option_view(*message),
            },
            ToolCall::Inbox(ms) => CallView::Inbox(*ms),
        }
    }
}

/// The member of an object with a name, or `null` where there is none.
pub open spec fn member_or_null(j: JsonView, name: Seq<char>) -> JsonView {
    match j.get(name) {
        Some(m) => m,
        None => JsonView::Null,
    }
}

/// The text that a member of an object is, or the empty text where it is none.
pub open spec fn text_or_empty(j: JsonView, name: Seq<char>) -> Seq<char> {
    match j.text(name) {
        Some(s) => s,
        None => Seq::empty(),
    }
}

/// The call that the parameters of `tools/call` ask for, or why there is none.
pub open spec fn asked(params: JsonView) -> Result<CallView, Seq<char>> {
    let name = text_or_empty(params, "name"@);
    let args = member_or_null(params, "arguments"@);
    if name == "lan_whoami"@ {
        Ok(CallView::Whoami)
    } else if name == "lan_discover"@ {
        Ok(
            CallView::Discover(
                match args.uint("wait_ms"@) {
                    Some(ms) => ms,
                    None => DISCOVER_WAIT,
                },
            ),
        )
    } else if name == "lan_peers"@ {
        Ok(CallView::Peers)
    } else if name == "lan_send"@ {
        Ok(CallView::Send { to: args.text("to"@), message: args.text("message"@) })
    } else if name == "lan_inbox"@ {
        Ok(
            CallView::Inbox(
                match args.uint("wait_ms"@) {
                    Some(ms) => ms,
                    None => 0,
                },
            ),
        )
    } else {
        Err("unknown tool: "@ + name)
    }
}

/// What a call, or the reason why there is none, holds.
pub open spec fn asked_view(call: Result<ToolCall, String>) -> Result<CallView, Seq<char>> {
    match call {
        Ok(call) => Ok(call@),
        Err(why) => Err(why@),
    }
}

/// Reads the parameters of `tools/call`.
pub fn tool_call(params: &Json) -> (r: Result<ToolCall, String>)
    ensures
        asked_view(r) == asked(params@),
{
    let name = match params.text_member("name") {
        Some(s) => s,
        None => String::new(),
    };
    let null = Json::Null;
    let args = match params.get("arguments") {
        Some(a) => a,
        None => &null,
    };
    if same(name.as_str(), "lan_whoami") {
        Ok(ToolCall::Whoami)
    } else if same(name.as_str(), "lan_discover") {
        Ok(
            ToolCall::Discover(
                match args.uint_member("wait_ms") {
                    Some(ms) => ms,
                    None => DISCOVER_WAIT,
                },
            ),
        )
    } else if same(name.as_str(), "lan_peers") {
        Ok(ToolCall::Peers)
    } else if same(name.as_str(), "lan_send") {
        Ok(ToolCall::Send { to: args.text_member("to"), message: args.text_member("message") })
    } else if same(name.as_str(), "lan_inbox") {
        Ok(
            ToolCall::Inbox(
                match args.uint_member("wait_ms") {
                    Some(ms) => ms,
                    None => 0,
                },
            ),
        )
    } else {
        Err(join("unknown tool: ", name.as_str()))
    }
}

/// What a tool came to, in words: JSON text, or the reason why it failed.
pub open spec fn outcome_text(outcome: Result<JsonView, Seq<char>>) -> Seq<char> {
    match outcome {
        Ok(j) => rendered(j),
        Err(why) => why,
    }
}

/// The result of `tools/call` for what a tool came to.
pub open spec fn call_result(outcome: Result<JsonView, Seq<char>>) -> JsonView {
    tool_answer(outcome_text(outcome), outcome is Err)
}

/// The result of `tools/call` with this text.
pub open spec fn tool_answer(text: Seq<char>, failed: bool) -> JsonView {
    JsonView::Object(
        map![
            "content"@ => JsonView::List(
                Seq::empty().push(
                    JsonView::Object(
                        map!["type"@ => JsonView::Text("text"@), "text"@ => JsonView::Text(text)],
                    ),
                ),
            ),
            "isError"@ => JsonView::Bool(failed),
        ],
    )
}

/// What a result holds.
pub open spec fn outcome_view(outcome: Result<Json, String>) -> Result<JsonView, Seq<char>> {
    match outcome {
        Ok(j) => Ok(j@),
        Err(why) => Err(why@),
    }
}

/// The result of `tools/call` with this text.
pub fn tool_answer_json(text: String, failed: bool) -> (r: Json)
    ensures
        r@ == tool_answer(text@, failed),
{
    let mut entry: Vec<(String, Json)> = Vec::new();
    add_member(&mut entry, "type", Json::text("text"));
    add_member(&mut entry, "text", Json::Text(text));
    let mut content: Vec<Json> = Vec::new();
    add_item(&mut content, Json::Object(entry));
    let mut m: Vec<(String, Json)> = Vec::new();
    add_member(&mut m, "content", Json::List(content));
    add_member(&mut m, "isError", Json::Bool(failed));
    Json::Object(m)
}

/// The result of `tools/call` for what a tool came to.
pub fn call_result_json(outcome: Result<Json, String>) -> (r: Json)
    ensures
        r@ == call_result(outcome_view(outcome)),
{
    match outcome {
        Ok(j) => tool_answer_json(to_text(j), false),
        Err(why) => tool_answer_json(why, true),
    }
}

/// The response to the request `id` with a result.
pub open spec fn response(id: JsonView, result: JsonView) -> JsonView {
    JsonView::Object(
        map!["jsonrpc"@ => JsonView::Text("2.0"@), "id"@ => id, "result"@ => result],
    )
}

/// The response to the request `id` with an error.
pub open spec fn error_response(id: JsonView, code: i64, message: Seq<char>) -> JsonView {
    JsonView::Object(
        map![
            "jsonrpc"@ => JsonView::Text("2.0"@),
            "id"@ => id,
            "error"@ => JsonView::Object(
                map!["code"@ => JsonView::Int(code as int), "message"@ => JsonView::Text(message)],
            ),
        ],
    )
}

/// The response to a request with a result.
pub fn response_json(id: Json, result: Json) -> (r: Json)
    ensures
        r@ == response(id@, result@),
{
    let mut m: Vec<(String, Json)> = Vec::new();
    add_member(&mut m, "jsonrpc", Json::text("2.0"));
    add_member(&mut m, "id", id);
    add_member(&mut m, "result", result);
    Json::Object(m)
}

/// The response to a request with an error.
pub fn error_json(id: Json, code: i64, message: String) -> (r: Json)
    ensures
        r@ == error_response(id@, code, message@),
{
    let mut error: Vec<(String, Json)> = Vec::new();
    add_member(&mut error, "code", Json::Int(code));
    add_member(&mut error, "message", Json::Text(message));
    let mut m: Vec<(String, Json)> = Vec::new();
    add_member(&mut m, "jsonrpc", Json::text("2.0"));
    add_member(&mut m, "id", id);
    add_member(&mut m, "error", Json::Object(error));
    Json::Object(m)
}

/// What a request comes to.
pub enum Dispatch {
    /// A notification, which gets no response.
    Skip,
    /// A request that is answered at once.
    Answer(Json),
    /// A call of a tool for the request `id`.
    Call { id: Json, call: ToolCall },
}

/// What a [`Dispatch`] holds.
pub enum DispatchView {
    Skip,
    Answer(JsonView),
    Call { id: JsonView, call: CallView },
}

impl View for Dispatch {
    type V = DispatchView;

    open spec fn view(&self) -> DispatchView {
        match self {
            Dispatch::Skip => DispatchView::Skip,
            Dispatch::Answer(j) => DispatchView::Answer(j@),
            Dispatch::Call { id, call } => DispatchView::Call { id: id@, call: call@ },
        }
    }
}

/// The id of a request; none for a notification, where it is missing or `null`.
pub open spec fn request_id(req: JsonView) -> Option<JsonView> {
    match req.get("id"@) {
        Some(JsonView::Null) => None,
        other => other,
    }
}

/// What a request comes to.
pub open spec fn dispatched(req: JsonView, brand: BrandView) -> DispatchView {
    let method = text_or_empty(req, "method"@);
    let params = member_or_null(req, "params"@);
    match request_id(req) {
        None => DispatchView::Skip,
        Some(id) => if method == "initialize"@ {
            DispatchView::Answer(response(id, introduction(params, brand)))
        } else if method == "ping"@ {
            DispatchView::Answer(response(id, empty_object()))
        } else if method == "tools/list"@ {
            DispatchView::Answer(
                response(
                    id,
                    JsonView::Object(map!["tools"@ => JsonView::List(tools(brand.agent))]),
                ),
            )
        } else if method == "tools/call"@ {
            match asked(params) {
                Ok(call) => DispatchView::Call { id, call },
                Err(why) => DispatchView::Answer(response(id, call_result(Err(why)))),
            }
        } else {
            DispatchView::Answer(
                error_response(id, METHOD_NOT_FOUND, "method not found: "@ + method),
            )
        },
    }
}

/// What to answer to a request before its id is put in.
enum Plan {
    Result(Json),
    Call(ToolCall),
    NoMethod(String),
}

/// Decides what a request comes to.
pub fn dispatch(req: Json, brand: &Brand) -> (r: Dispatch)
    ensures
        r@ == dispatched(req@, brand@),
{
    let method = match req.text_member("method") {
        Some(s) => s,
        None => String::new(),
    };
    let null = Json::Null;
    let params = match req.get("params") {
        Some(p) => p,
        None => &null,
    };
    let plan = if same(method.as_str(), "initialize") {
        Plan::Result(initialize_result(params, brand))
    } else if same(method.as_str(), "ping") {
        Plan::Result(Json::Object(Vec::new()))
    } else if same(method.as_str(), "tools/list") {
        let mut m: Vec<(String, Json)> = Vec::new();
        add_member(&mut m, "tools", tool_defs(brand.agent.as_str()));
        Plan::Result(Json::Object(m))
    } else if same(method.as_str(), "tools/call") {
        match tool_call(params) {
            Ok(call) => Plan::Call(call),
            Err(why) => Plan::Result(call_result_json(Err(why))),
        }
    } else {
        Plan::NoMethod(join("method not found: ", method.as_str()))
    };
    match req.take("id") {
        Some(id) => if id.is_null() {
            Dispatch::Skip
        } else {
            match plan {
                Plan::Result(result) => Dispatch::Answer(response_json(id, result)),
                Plan::Call(call) => Dispatch::Call { id, call },
                Plan::NoMethod(message) => Dispatch::Answer(
                    error_json(id, METHOD_NOT_FOUND, message),
                ),
            }
        },
        None => Dispatch::Skip,
    }
}

/// What a line of input comes to.
pub enum Served {
    /// Nothing is sent back.
    Skip,
    /// These bytes are sent back.
    Reply(Vec<u8>),
    /// A tool is called for the request `id`.
    Call { id: Json, call: ToolCall },
}

/// What a [`Served`] holds.
pub enum ServedView {
    Skip,
    Reply(Seq<u8>),
    Call { id: JsonView, call: CallView },
}

impl View for Served {
    type V = ServedView;

    open spec fn view(&self) -> ServedView {
        match self {
            Served::Skip => ServedView::Skip,
            Served::Reply(bytes) => ServedView::Reply(bytes@),
            Served::Call { id, call } => ServedView::Call { id: id@, call: call@ },
        }
    }
}

/// The request in a line of input; none where the line, without white space at its ends,
/// is empty or no JSON.
pub open spec fn request(line: Seq<char>) -> Option<JsonView> {
    if trimmed(line).len() == 0 {
        None
    } else {
        parsed(trimmed(line))
    }
}

/// What a line of input comes to.
pub open spec fn served(line: Seq<char>, brand: BrandView) -> ServedView {
    match request(line) {
        None => ServedView::Skip,
        Some(req) => match dispatched(req, brand) {
            DispatchView::Skip => ServedView::Skip,
            DispatchView::Answer(j) => ServedView::Reply(line_bytes(j)),
            DispatchView::Call { id, call } => ServedView::Call { id, call },
        },
    }
}

/// Whether a response goes out as one line that reads as the response: it has no line feed
/// in it, and, where [`readable`] holds of it, reading it gives it back.
pub open spec fn one_line(j: JsonView) -> bool {
    &&& !rendered(j).contains('\n')
    &&& readable(j, max_depth()) ==> parsed(rendered(j)) == Some(j)
}

/// Serves one line of input.
pub fn serve(line: &str, brand: &Brand) -> (r: Served)
    ensures
        r@ == served(line@, brand@),
        request(line@) matches Some(req) ==> (dispatched(req, brand@) matches DispatchView::Answer(j)
            ==> one_line(j)),
{
    let text = trim(line);
    if text.as_str().is_empty() {
        return Served::Skip;
    }
    match read(text.as_str()) {
        None => Served::Skip,
        Some(req) => match dispatch(req, brand) {
            Dispatch::Skip => Served::Skip,
            Dispatch::Answer(j) => Served::Reply(to_line(j)),
            Dispatch::Call { id, call } => Served::Call { id, call },
        },
    }
}

/// The line that answers the request `id`, which called a tool, with what the tool came to.
pub fn finish_call(id: Json, outcome: Result<Json, String>) -> (r: Vec<u8>)
    ensures
        r@ == line_bytes(response(id@, call_result(outcome_view(outcome)))),
        one_line(response(id@, call_result(outcome_view(outcome)))),
{
    to_line(response_json(id, call_result_json(outcome)))
}

}
