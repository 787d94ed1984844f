//! What a line of input comes to, and what is sent back for it: which requests are answered,
//! with what, and which call a tool.
use crate::json::max_depth;
use crate::json::parsed;
use crate::json::readable;
use crate::json::rendered;
use crate::json::JsonView;
use crate::mcp::asked;
use crate::mcp::call_result;
use crate::mcp::dispatched;
use crate::mcp::error_response;
use crate::mcp::introduction;
use crate::mcp::one_line;
use crate::mcp::request;
use crate::mcp::request_id;
use crate::mcp::response;
use crate::mcp::served;
use crate::mcp::tool_answer;
use crate::mcp::tools;
use crate::mcp::BrandView;
use crate::mcp::CallView;
use crate::mcp::DispatchView;
use crate::mcp::ServedView;
use crate::mcp::METHOD_NOT_FOUND;
use crate::table::has;
use crate::text::trimmed;
use vstd::prelude::*;

verus! {

/// Whether a value is an object with these members and no others: the response of JSON-RPC 2.0
/// to a request, with its result.
pub open spec fn is_response(j: JsonView, id: JsonView, result: JsonView) -> bool {
    j matches JsonView::Object(o) && o.dom() =~= set!["jsonrpc"@, "id"@, "result"@]
        && o["jsonrpc"@] == JsonView::Text("2.0"@) && o["id"@] == id && o["result"@] == result
}

/// Whether a value is an object with these members and no others: the response of JSON-RPC 2.0
/// to a request that failed, with a code and a message.
pub open spec fn is_error(j: JsonView, id: JsonView, code: int, message: Seq<char>) -> bool {
    j matches JsonView::Object(o) && o.dom() =~= set!["jsonrpc"@, "id"@, "error"@]
        && o["jsonrpc"@] == JsonView::Text("2.0"@) && o["id"@] == id && (
    o["error"@] matches JsonView::Object(e) && e.dom() =~= set!["code"@, "message"@] && e["code"@]
        == JsonView::Int(code) && e["message"@] == JsonView::Text(message))
}

/// Whether a value is an object with these members and no others: what a tool came to, as one
/// piece of text, and whether it failed.
pub open spec fn is_tool_answer(j: JsonView, text: Seq<char>, failed: bool) -> bool {
    j matches JsonView::Object(o) && o.dom() =~= set!["content"@, "isError"@] && o["isError"@]
        == JsonView::Bool(failed) && (o["content"@] matches JsonView::List(l) && l.len() == 1 && (
    l[0] matches JsonView::Object(e) && e.dom() =~= set!["type"@, "text"@] && e["type"@]
        == JsonView::Text("text"@) && e["text"@] == JsonView::Text(text)))
}

/// Responses are what the protocol wants them to be, with the id, the result or the error in
/// whole.
pub proof fn responses_are_whole(id: JsonView, result: JsonView, code: i64, message: Seq<char>)
    ensures
        is_response(response(id, result), id, result),
        is_error(error_response(id, code, message), id, code as int, message),
{
    reveal_strlit("jsonrpc");
    reveal_strlit("id");
    reveal_strlit("result");
    reveal_strlit("error");
    reveal_strlit("code");
    reveal_strlit("message");
    assert("jsonrpc"@.len() == 7 && "id"@.len() == 2);
    assert("result"@.len() == 6 && "error"@.len() == 5);
    assert("code"@.len() == 4 && "message"@.len() == 7);
}

/// What a tool came to is told whole: the text of its value, or why it failed.
pub proof fn outcomes_are_told_whole(j: JsonView, text: Seq<char>, failed: bool)
    ensures
        is_tool_answer(tool_answer(text, failed), text, failed),
        is_tool_answer(call_result(Ok(j)), rendered(j), false),
        is_tool_answer(call_result(Err(text)), text, true),
{
    reveal_strlit("content");
    reveal_strlit("isError");
    reveal_strlit("type");
    reveal_strlit("text");
    assert("content"@[0] == 'c' && "isError"@[0] == 'i');
    assert("type"@[1] == 'y' && "text"@[1] == 'e');
}

/// Whether a value is an object with these members and no others: the protocol version, that
/// there are tools, and the server by name and version.
pub open spec fn is_introduction(j: JsonView, version: Seq<char>, brand: BrandView) -> bool {
    j matches JsonView::Object(o) && o.dom() =~= set![
        "protocolVersion"@,
        "capabilities"@,
        "serverInfo"@,
    ] && o["protocolVersion"@] == JsonView::Text(version) && (
    o["capabilities"@] matches JsonView::Object(c) && c.dom() =~= set!["tools"@] && (
    c["tools"@] matches JsonView::Object(t) && t.dom() =~= Set::empty())) && (
    o["serverInfo"@] matches JsonView::Object(i) && i.dom() =~= set!["name"@, "version"@]
        && i["name"@] == JsonView::Text(brand.server) && i["version"@] == JsonView::Text(
        brand.version,
    ))
}

/// The server introduces itself with the protocol version that the client names, or with the
/// default one where it names none.
pub proof fn the_server_introduces_itself(
    params: JsonView,
    version: Seq<char>,
    brand: BrandView,
)
    ensures
        has(params, "protocolVersion"@, JsonView::Text(version)) ==> is_introduction(
            introduction(params, brand),
            version,
            brand,
        ),
        (forall|v: Seq<char>|
            !(#[trigger] has(params, "protocolVersion"@, JsonView::Text(v)))) ==> is_introduction(
            introduction(params, brand),
            "2025-06-18"@,
            brand,
        ),
{
    reveal_strlit("protocolVersion");
    reveal_strlit("capabilities");
    reveal_strlit("serverInfo");
    reveal_strlit("name");
    reveal_strlit("version");
    assert("protocolVersion"@.len() == 15 && "capabilities"@.len() == 12);
    assert("serverInfo"@.len() == 10 && "name"@.len() == 4 && "version"@.len() == 7);
    if params.text("protocolVersion"@) is Some {
        assert(has(
            params,
            "protocolVersion"@,
            JsonView::Text(params.text("protocolVersion"@)->0),
        ));
    }
}

/// Whether a value is an object with these members and no others: a tool by its name, with what
/// it does in words, and with what it takes.
pub open spec fn is_tool(
    j: JsonView,
    name: Seq<char>,
    description: Seq<char>,
    input: JsonView,
) -> bool {
    j matches JsonView::Object(o) && o.dom() =~= set!["name"@, "description"@, "inputSchema"@]
        && o["name"@] == JsonView::Text(name) && o["description"@] == JsonView::Text(description)
        && o["inputSchema"@] == input
}

/// The server offers five tools. What they are called and what they take is the same whoever is
/// served; in what they do only the word for who is served is put in.
pub proof fn five_tools_are_offered(agent: Seq<char>, other: Seq<char>)
    ensures
        tools(agent).len() == 5,
        ({
            let t = tools(agent);
            let input = |i: int| tools(other)[i]->Object_0["inputSchema"@];
            &&& is_tool(
                t[0],
                "lan_whoami"@,
                "This node's identity on the LAN: name, id, ip, and ports. Other "@ + agent
                    + " instances address you by this name."@,
                input(0),
            )
            &&& is_tool(
                t[1],
                "lan_discover"@,
                "Actively probe the LAN for other "@ + agent
                    + " instances (multicast + broadcast burst). Returns as soon as replies go quiet — typically under 200ms. Returns the full peer table with round-trip latencies."@,
                input(1),
            )
            &&& is_tool(
                t[2],
                "lan_peers"@,
                "Instantly list peers already known from background discovery, without sending any probes. Use lan_discover for a fresh active scan."@,
                input(2),
            )
            &&& is_tool(
                t[3],
                "lan_send"@,
                "Send a text message to another "@ + agent
                    + " instance by name or id, or to 'all' to broadcast to every known peer. Auto-discovers first if the peer isn't known yet. Delivery is acknowledged over TCP."@,
                input(3),
            )
            &&& is_tool(
                t[4],
                "lan_inbox"@,
                "Read and clear messages received from other "@ + agent
                    + " instances. Set wait_ms to long-poll: blocks until a message arrives or the timeout passes — use this to await a reply in a conversation."@,
                input(4),
            )
        }),
{
    reveal_strlit("name");
    reveal_strlit("description");
    reveal_strlit("inputSchema");
    assert("name"@.len() == 4 && "description"@.len() == 11 && "inputSchema"@.len() == 11);
    assert("description"@[0] == 'd' && "inputSchema"@[0] == 'i');
}

/// Whether the parameters of a call have this argument with this value.
pub open spec fn has_argument(params: JsonView, name: Seq<char>, value: JsonView) -> bool {
    params matches JsonView::Object(p) && p.contains_key("arguments"@) && has(
        p["arguments"@],
        name,
        value,
    )
}

/// Whether the parameters of a call name this tool.
pub open spec fn names_tool(params: JsonView, name: Seq<char>) -> bool {
    has(params, "name"@, JsonView::Text(name))
}

/// Whether a number fits in 64 bits without a sign.
pub open spec fn fits(n: int) -> bool {
    0 <= n <= 0xffff_ffff_ffff_ffff
}

proof fn names_of_tools_differ()
    ensures
        "lan_whoami"@ != "lan_discover"@,
        "lan_whoami"@ != "lan_peers"@,
        "lan_whoami"@ != "lan_send"@,
        "lan_whoami"@ != "lan_inbox"@,
        "lan_discover"@ != "lan_peers"@,
        "lan_discover"@ != "lan_send"@,
        "lan_discover"@ != "lan_inbox"@,
        "lan_peers"@ != "lan_send"@,
        "lan_peers"@ != "lan_inbox"@,
        "lan_send"@ != "lan_inbox"@,
        "lan_whoami"@.len() > 0,
        "lan_discover"@.len() > 0,
        "lan_peers"@.len() > 0,
        "lan_send"@.len() > 0,
        "lan_inbox"@.len() > 0,
{
    reveal_strlit("lan_whoami");
    reveal_strlit("lan_discover");
    reveal_strlit("lan_peers");
    reveal_strlit("lan_send");
    reveal_strlit("lan_inbox");
    assert("lan_whoami"@.len() == 10 && "lan_discover"@.len() == 12);
    assert("lan_peers"@.len() == 9 && "lan_send"@.len() == 8 && "lan_inbox"@.len() == 9);
    assert("lan_peers"@[4] == 'p' && "lan_inbox"@[4] == 'i');
}

/// A call is of the tool that its parameters name, with the arguments that they bring: a wait
/// that is a number, or the default one, and texts in whole.
pub proof fn a_call_is_what_its_parameters_ask_for(params: JsonView, ms: u64, text: Seq<char>)
    ensures
        names_tool(params, "lan_whoami"@) ==> asked(params) == Ok::<CallView, Seq<char>>(
            CallView::Whoami,
        ),
        names_tool(params, "lan_peers"@) ==> asked(params) == Ok::<CallView, Seq<char>>(
            CallView::Peers,
        ),
        names_tool(params, "lan_discover"@) && has_argument(
            params,
            "wait_ms"@,
            JsonView::Int(ms as int),
        ) ==> asked(params) == Ok::<CallView, Seq<char>>(CallView::Discover(ms)),
        names_tool(params, "lan_discover"@) && (forall|n: int|
            fits(n) ==> !(#[trigger] has_argument(params, "wait_ms"@, JsonView::Int(n))))
            ==> asked(params) == Ok::<CallView, Seq<char>>(CallView::Discover(300)),
        names_tool(params, "lan_inbox"@) && has_argument(
            params,
            "wait_ms"@,
            JsonView::Int(ms as int),
        ) ==> asked(params) == Ok::<CallView, Seq<char>>(CallView::Inbox(ms)),
        names_tool(params, "lan_inbox"@) && (forall|n: int|
            fits(n) ==> !(#[trigger] has_argument(params, "wait_ms"@, JsonView::Int(n))))
            ==> asked(params) == Ok::<CallView, Seq<char>>(CallView::Inbox(0)),
        names_tool(params, "lan_send"@) ==> asked(params) is Ok && asked(params)->Ok_0 is Send,
        names_tool(params, "lan_send"@) && has_argument(params, "to"@, JsonView::Text(text))
            ==> asked(params)->Ok_0->to == Some(text),
        names_tool(params, "lan_send"@) && (forall|t: Seq<char>|
            !(#[trigger] has_argument(params, "to"@, JsonView::Text(t)))) ==> asked(
            params,
        )->Ok_0->to is None,
        names_tool(params, "lan_send"@) && has_argument(params, "message"@, JsonView::Text(text))
            ==> asked(params)->Ok_0->message == Some(text),
        names_tool(params, "lan_send"@) && (forall|t: Seq<char>|
            !(#[trigger] has_argument(params, "message"@, JsonView::Text(t)))) ==> asked(
            params,
        )->Ok_0->message is None,
{
    names_of_tools_differ();
    let args = crate::mcp::member_or_null(params, "arguments"@);
    if args.uint("wait_ms"@) is Some {
        assert(has_argument(
            params,
            "wait_ms"@,
            JsonView::Int(args.uint("wait_ms"@)->0 as int),
        ));
    }
    if args.text("to"@) is Some {
        assert(has_argument(params, "to"@, JsonView::Text(args.text("to"@)->0)));
    }
    if args.text("message"@) is Some {
        assert(has_argument(params, "message"@, JsonView::Text(args.text("message"@)->0)));
    }
}

/// A call of a tool that the server does not have is none, and the reason names the tool.
pub proof fn an_unknown_tool_is_not_called(params: JsonView, name: Seq<char>)
    ensures
        names_tool(params, name) && name != "lan_whoami"@ && name != "lan_discover"@ && name
            != "lan_peers"@ && name != "lan_send"@ && name != "lan_inbox"@ ==> asked(params)
            == Err::<CallView, Seq<char>>("unknown tool: "@ + name),
        (forall|n: Seq<char>| !(#[trigger] names_tool(params, n))) ==> asked(params) == Err::<
            CallView,
            Seq<char>,
        >("unknown tool: "@),
{
    names_of_tools_differ();
    if forall|n: Seq<char>| !(#[trigger] names_tool(params, n)) {
        if params.text("name"@) is Some {
            assert(names_tool(params, params.text("name"@)->0));
        }
        assert("unknown tool: "@ + Seq::<char>::empty() =~= "unknown tool: "@);
    }
}

/// The id of a request is its member with that name; where that is `null` or missing, it is a
/// notification.
pub proof fn requests_have_ids(req: JsonView, id: JsonView)
    ensures
        has(req, "id"@, id) && id !is Null ==> request_id(req) == Some(id),
        has(req, "id"@, JsonView::Null) ==> request_id(req) is None,
        (forall|any: JsonView| !(#[trigger] has(req, "id"@, any))) ==> request_id(req) is None,
        request_id(req) is Some ==> request_id(req)->0 !is Null && has(
            req,
            "id"@,
            request_id(req)->0,
        ),
{
    if req.get("id"@) is Some {
        assert(has(req, "id"@, req.get("id"@)->0));
    }
}

/// Whether a request has these parameters: its member with that name, or `null` where it has
/// none.
pub open spec fn has_params(req: JsonView, params: JsonView) -> bool {
    has(req, "params"@, params) || (params is Null && forall|any: JsonView|
        !(#[trigger] has(req, "params"@, any)))
}

/// Whether a request is for this method.
pub open spec fn is_for(req: JsonView, method: Seq<char>) -> bool {
    has(req, "method"@, JsonView::Text(method))
}

proof fn params_are_found(req: JsonView, params: JsonView)
    requires
        has_params(req, params),
    ensures
        crate::mcp::member_or_null(req, "params"@) == params,
{
    if req.get("params"@) is Some {
        assert(has(req, "params"@, req.get("params"@)->0));
    }
}

proof fn names_of_methods_differ()
    ensures
        "initialize"@ != "ping"@,
        "initialize"@ != "tools/list"@,
        "initialize"@ != "tools/call"@,
        "ping"@ != "tools/list"@,
        "ping"@ != "tools/call"@,
        "tools/list"@ != "tools/call"@,
        "initialize"@.len() > 0,
        "ping"@.len() > 0,
        "tools/list"@.len() > 0,
        "tools/call"@.len() > 0,
{
    reveal_strlit("initialize");
    reveal_strlit("ping");
    reveal_strlit("tools/list");
    reveal_strlit("tools/call");
    assert("initialize"@.len() == 10 && "ping"@.len() == 4);
    assert("tools/list"@.len() == 10 && "tools/call"@.len() == 10);
    assert("initialize"@[0] == 'i' && "tools/list"@[0] == 't' && "tools/call"@[0] == 't');
    assert("tools/list"@[6] == 'l' && "tools/call"@[6] == 'c');
}

/// A notification comes to nothing, whatever it is for. Any other request is answered by its
/// id: with the introduction, with an empty result, with the tools that are offered, with why
/// the tool cannot be called, or with the error for a method that does not exist; or it calls
/// the tool that its parameters ask for.
pub proof fn a_request_comes_to_what_it_is_for(
    req: JsonView,
    id: JsonView,
    params: JsonView,
    method: Seq<char>,
    brand: BrandView,
)
    requires
        has_params(req, params),
    ensures
        dispatched(req, brand) is Skip <==> !exists|any: JsonView| #[trigger]
            has(req, "id"@, any) && any !is Null,
        has(req, "id"@, id) && id !is Null ==> ({
            let d = dispatched(req, brand);
            &&& is_for(req, "initialize"@) ==> (d matches DispatchView::Answer(j) && is_response(
                j,
                id,
                introduction(params, brand),
            ))
            &&& is_for(req, "ping"@) ==> (d matches DispatchView::Answer(j) && is_response(
                j,
                id,
                JsonView::Object(Map::empty()),
            ))
            &&& is_for(req, "tools/list"@) ==> (d matches DispatchView::Answer(j) && is_response(
                j,
                id,
                JsonView::Object(Map::empty().insert("tools"@, JsonView::List(tools(brand.agent)))),
            ))
            &&& is_for(req, "tools/call"@) && asked(params) is Ok ==> d is Call && d->id == id
                && d->call == asked(params)->Ok_0
            &&& is_for(req, "tools/call"@) && asked(params) is Err ==> (
            d matches DispatchView::Answer(j) && is_response(
                j,
                id,
                call_result(Err(asked(params)->Err_0)),
            ))
            &&& is_for(req, method) && method != "initialize"@ && method != "ping"@ && method
                != "tools/list"@ && method != "tools/call"@ ==> (d matches DispatchView::Answer(j)
                && is_error(j, id, -32601, "method not found: "@ + method))
            &&& (forall|m: Seq<char>| !(#[trigger] is_for(req, m))) ==> (
            d matches DispatchView::Answer(j) && is_error(j, id, -32601, "method not found: "@))
        }),
{
    params_are_found(req, params);
    names_of_methods_differ();
    requests_have_ids(req, id);
    if request_id(req) is None && exists|any: JsonView| #[trigger]
        has(req, "id"@, any) && any !is Null {
        let any = choose|any: JsonView| #[trigger] has(req, "id"@, any) && any !is Null;
        requests_have_ids(req, any);
    }
    if has(req, "id"@, id) && id !is Null {
        if forall|m: Seq<char>| !(#[trigger] is_for(req, m)) {
            if req.text("method"@) is Some {
                assert(is_for(req, req.text("method"@)->0));
            }
            assert("method not found: "@ + Seq::<char>::empty() =~= "method not found: "@);
        }
        responses_are_whole(id, introduction(params, brand), 0, Seq::empty());
        responses_are_whole(id, JsonView::Object(Map::empty()), 0, Seq::empty());
        responses_are_whole(
            id,
            JsonView::Object(Map::empty().insert("tools"@, JsonView::List(tools(brand.agent)))),
            0,
            Seq::empty(),
        );
        responses_are_whole(
            id,
            call_result(Err(asked(params)->Err_0)),
            METHOD_NOT_FOUND,
            "method not found: "@ + method,
        );
        responses_are_whole(id, JsonView::Null, METHOD_NOT_FOUND, "method not found: "@);
    }
}

/// A line holds the request that it reads as without the white space at its ends, and none
/// where nothing is left of it.
pub proof fn lines_hold_requests(line: Seq<char>)
    ensures
        trimmed(line).len() == 0 ==> request(line) is None,
        trimmed(line).len() > 0 ==> request(line) == parsed(trimmed(line)),
{
}

/// A line is skipped exactly where it holds no request, or a notification. A request that calls
/// a tool of the server is handed on with its id and the call that its parameters ask for; for
/// every other one its answer is sent back, as one line.
pub proof fn every_request_is_served(line: Seq<char>, req: JsonView, brand: BrandView)
    ensures
        request(line) is None ==> served(line, brand) is Skip,
        request(line) == Some(req) ==> (served(line, brand) is Skip <==> !exists|any: JsonView|
         #[trigger] has(req, "id"@, any) && any !is Null),
        request(line) == Some(req) ==> (dispatched(req, brand) matches DispatchView::Answer(j)
            ==> served(line, brand) == ServedView::Reply(
            vstd::utf8::encode_utf8(rendered(j).push('\n')),
        )),
        request(line) == Some(req) && dispatched(req, brand) is Call ==> served(line, brand) is Call
            && served(line, brand)->id == dispatched(req, brand)->id && served(line, brand)->call
            == dispatched(req, brand)->call,
{
    let params = crate::mcp::member_or_null(req, "params"@);
    if req.get("params"@) is None {
        assert forall|any: JsonView| !(#[trigger] has(req, "params"@, any)) by {}
    }
    assert(has_params(req, params));
    a_request_comes_to_what_it_is_for(req, JsonView::Null, params, Seq::empty(), brand);
}

/// A request that calls a tool of the server is handed on with its own id and the call that its
/// parameters ask for, whichever tool it is.
pub proof fn every_tool_can_be_called(
    line: Seq<char>,
    req: JsonView,
    id: JsonView,
    params: JsonView,
    call: CallView,
    brand: BrandView,
)
    requires
        request(line) == Some(req),
        has(req, "id"@, id),
        id !is Null,
        is_for(req, "tools/call"@),
        has_params(req, params),
        asked(params) == Ok::<CallView, Seq<char>>(call),
    ensures
        served(line, brand) is Call,
        served(line, brand)->id == id,
        served(line, brand)->call == call,
{
    a_request_comes_to_what_it_is_for(req, id, params, Seq::empty(), brand);
    every_request_is_served(line, req, brand);
}

/// What goes out as one line has no line feed in it, and reads back wherever a value of its
/// depth that holds no number but integers does.
pub proof fn one_line_is_one_line(j: JsonView)
    requires
        one_line(j),
    ensures
        forall|i: int| 0 <= i < rendered(j).len() ==> (#[trigger] rendered(j)[i]) != '\n',
        readable(j, max_depth()) ==> parsed(rendered(j)) == Some(j),
{
    assert forall|i: int| 0 <= i < rendered(j).len() implies (#[trigger] rendered(j)[i])
        != '\n' by {
        assert(rendered(j).contains(rendered(j)[i]));
    }
}

/// Values that nest 127 deep at most and hold no number but integers read back.
pub proof fn what_reads_back(j: JsonView, depth: nat)
    ensures
        max_depth() == 127,
        j is Null || j is Bool || j is Int || j is Text ==> readable(j, depth),
        j matches JsonView::List(l) ==> (depth > 0 && (forall|i: int|
            0 <= i < l.len() ==> readable(#[trigger] l[i], (depth - 1) as nat)) ==> readable(
            j,
            depth,
        )),
        j matches JsonView::Object(o) ==> (depth > 0 && (forall|k: Seq<char>| #[trigger]
            o.contains_key(k) ==> readable(o[k], (depth - 1) as nat)) ==> readable(j, depth)),
{
}

}
