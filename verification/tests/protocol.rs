//! The protocol: lines in, lines out.
use lan_mcp::json::{read, to_text, Json};
use lan_mcp::mcp::{
    call_result_json, dispatch, error_json, finish_call, initialize_result, response_json,
    serve, tool_answer_json, tool_call, tool_defs, Brand, Dispatch, Served, ToolCall,
};

fn brand() -> Brand {
    Brand {
        agent: String::from("Robot"),
        server: String::from("robot-lan-mcp"),
        version: String::from("1.2.3"),
    }
}

fn reply(line: &str) -> String {
    match serve(line, &brand()) {
        Served::Reply(bytes) => String::from_utf8(bytes).unwrap(),
        _ => panic!("no reply"),
    }
}

fn called(params: &str) -> ToolCall {
    match tool_call(&read(params).unwrap()) {
        Ok(call) => call,
        Err(why) => panic!("{why}"),
    }
}

#[test]
fn initialize_echoes_the_protocol_version() {
    let line = "{\"jsonrpc\":\"2.0\",\"id\":1,\"method\":\"initialize\",\"params\":{\"protocolVersion\":\"2024-11-05\"}}";
    assert_eq!(
        reply(line),
        "{\"id\":1,\"jsonrpc\":\"2.0\",\"result\":{\"capabilities\":{\"tools\":{}},\"protocolVersion\":\"2024-11-05\",\"serverInfo\":{\"name\":\"robot-lan-mcp\",\"version\":\"1.2.3\"}}}\n"
    );
}

#[test]
fn initialize_has_a_default_protocol_version() {
    for params in ["null", "{}", "{\"protocolVersion\":3}", "[]"] {
        let result = initialize_result(&read(params).unwrap(), &brand());
        assert_eq!(result.text_member("protocolVersion"), Some(String::from("2025-06-18")));
    }
    let none = reply("{\"id\":\"x\",\"method\":\"initialize\"}");
    assert!(none.contains("2025-06-18"));
}

#[test]
fn ping_is_answered_with_nothing() {
    assert_eq!(
        reply("  {\"id\":\"abc\",\"method\":\"ping\"}\r\n"),
        "{\"id\":\"abc\",\"jsonrpc\":\"2.0\",\"result\":{}}\n"
    );
}

#[test]
fn ids_of_any_kind_come_back() {
    for id in ["0", "-7", "1.5", "\"a\\nb\"", "false", "[1,2]", "{\"k\":null}", "1e2"] {
        let expected = to_text(read(id).unwrap());
        assert_eq!(
            reply(&format!("{{\"id\":{id},\"method\":\"ping\"}}")),
            format!("{{\"id\":{expected},\"jsonrpc\":\"2.0\",\"result\":{{}}}}\n")
        );
    }
}

#[test]
fn notifications_and_noise_get_no_response() {
    let lines = [
        "", "   ", "not json", "{\"id\":1,", "[]", "7", "null", "{}",
        "{\"method\":\"notifications/initialized\"}", "{\"method\":\"ping\"}",
        "{\"id\":null,\"method\":\"ping\"}", "{\"id\":null,\"method\":\"nope\"}",
        "{\"method\":\"tools/call\",\"params\":{\"name\":\"lan_peers\"}}",
    ];
    for line in lines {
        assert!(matches!(serve(line, &brand()), Served::Skip), "{line}");
    }
}

#[test]
fn an_unknown_method_is_an_error() {
    assert_eq!(
        reply("{\"id\":5,\"method\":\"resources/list\"}"),
        "{\"error\":{\"code\":-32601,\"message\":\"method not found: resources/list\"},\"id\":5,\"jsonrpc\":\"2.0\"}\n"
    );
    for line in ["{\"id\":5}", "{\"id\":5,\"method\":7}"] {
        assert_eq!(
            reply(line),
            "{\"error\":{\"code\":-32601,\"message\":\"method not found: \"},\"id\":5,\"jsonrpc\":\"2.0\"}\n"
        );
    }
}

#[test]
fn five_tools_are_offered() {
    let line = reply("{\"id\":2,\"method\":\"tools/list\"}");
    assert_eq!(line.matches('\n').count(), 1);
    let j = read(line.trim()).unwrap();
    let tools = j.take("result").unwrap().take("tools").unwrap();
    assert_eq!(to_text(tools), to_text(tool_defs("Robot")));
    let Json::List(tools) = tool_defs("Robot") else {
        panic!("no list");
    };
    let names: Vec<String> = tools.iter().map(|t| t.text_member("name").unwrap()).collect();
    assert_eq!(names, vec!["lan_whoami", "lan_discover", "lan_peers", "lan_send", "lan_inbox"]);
    for name in names {
        let params = Json::Object(vec![(String::from("name"), Json::Text(name))]);
        assert!(tool_call(&params).is_ok());
    }
}

#[test]
fn the_tools_are_described() {
    let text = to_text(tool_defs("Robot"));
    let nothing = "{\"properties\":{},\"required\":[],\"type\":\"object\"}";
    let whoami = format!(
        "{{\"description\":\"This node's identity on the LAN: name, id, ip, and ports. Other Robot instances address you by this name.\",\"inputSchema\":{nothing},\"name\":\"lan_whoami\"}}"
    );
    let discover = "{\"description\":\"Actively probe the LAN for other Robot instances (multicast + broadcast burst). Returns as soon as replies go quiet — typically under 200ms. Returns the full peer table with round-trip latencies.\",\"inputSchema\":{\"properties\":{\"wait_ms\":{\"description\":\"Ceiling on how long to wait for replies, in ms (default 300, max 5000). Early-exits when the LAN goes quiet.\",\"type\":\"integer\"}},\"required\":[],\"type\":\"object\"},\"name\":\"lan_discover\"}";
    let peers = format!(
        "{{\"description\":\"Instantly list peers already known from background discovery, without sending any probes. Use lan_discover for a fresh active scan.\",\"inputSchema\":{nothing},\"name\":\"lan_peers\"}}"
    );
    let send = "{\"description\":\"Send a text message to another Robot instance by name or id, or to 'all' to broadcast to every known peer. Auto-discovers first if the peer isn't known yet. Delivery is acknowledged over TCP.\",\"inputSchema\":{\"properties\":{\"message\":{\"description\":\"The message text to deliver\",\"type\":\"string\"},\"to\":{\"description\":\"Peer name, peer id, a unique name prefix, or 'all'\",\"type\":\"string\"}},\"required\":[\"to\",\"message\"],\"type\":\"object\"},\"name\":\"lan_send\"}";
    let inbox = "{\"description\":\"Read and clear messages received from other Robot instances. Set wait_ms to long-poll: blocks until a message arrives or the timeout passes — use this to await a reply in a conversation.\",\"inputSchema\":{\"properties\":{\"wait_ms\":{\"description\":\"If the inbox is empty, wait up to this many ms for a message to arrive (default 0 = return immediately, max 25000)\",\"type\":\"integer\"}},\"required\":[],\"type\":\"object\"},\"name\":\"lan_inbox\"}";
    assert_eq!(text, format!("[{whoami},{discover},{peers},{send},{inbox}]"));
}

#[test]
fn calls_are_read_with_their_arguments() {
    assert!(matches!(called("{\"name\":\"lan_whoami\"}"), ToolCall::Whoami));
    assert!(matches!(called("{\"name\":\"lan_peers\",\"arguments\":7}"), ToolCall::Peers));
    match called("{\"name\":\"lan_send\",\"arguments\":{\"to\":\"beta\",\"message\":\"hi\"}}") {
        ToolCall::Send { to, message } => {
            assert_eq!((to, message), (Some(String::from("beta")), Some(String::from("hi"))));
        }
        _ => panic!("no message"),
    }
    match called("{\"name\":\"lan_send\",\"arguments\":{\"to\":1}}") {
        ToolCall::Send { to, message } => assert_eq!((to, message), (None, None)),
        _ => panic!("no message"),
    }
}

#[test]
fn waits_have_defaults() {
    let wait = |name: &str, arguments: &str| -> u64 {
        match called(&format!("{{\"name\":\"{name}\",\"arguments\":{arguments}}}")) {
            ToolCall::Discover(ms) | ToolCall::Inbox(ms) => ms,
            _ => panic!("no wait"),
        }
    };
    assert_eq!(wait("lan_discover", "{}"), 300);
    assert_eq!(wait("lan_discover", "null"), 300);
    assert_eq!(wait("lan_discover", "{\"wait_ms\":-1}"), 300);
    assert_eq!(wait("lan_discover", "{\"wait_ms\":0}"), 0);
    assert_eq!(wait("lan_discover", "{\"wait_ms\":99999}"), 99999);
    assert_eq!(wait("lan_inbox", "{}"), 0);
    assert_eq!(wait("lan_inbox", "{\"wait_ms\":\"5\"}"), 0);
    assert_eq!(wait("lan_inbox", "{\"wait_ms\":2.0}"), 0);
    assert_eq!(wait("lan_inbox", "{\"wait_ms\":24999}"), 24_999);
    assert_eq!(wait("lan_inbox", "{\"wait_ms\":25000}"), 25_000);
    assert_eq!(wait("lan_inbox", "{\"wait_ms\":18446744073709551615}"), u64::MAX);
}

#[test]
fn an_unknown_tool_is_a_failed_call() {
    assert_eq!(
        reply("{\"id\":3,\"method\":\"tools/call\",\"params\":{\"name\":\"lan_fly\"}}"),
        "{\"id\":3,\"jsonrpc\":\"2.0\",\"result\":{\"content\":[{\"text\":\"unknown tool: lan_fly\",\"type\":\"text\"}],\"isError\":true}}\n"
    );
    match tool_call(&Json::Null) {
        Err(why) => assert_eq!(why, "unknown tool: "),
        Ok(_) => panic!("a call of nothing"),
    }
}

#[test]
fn a_call_of_a_tool_is_handed_on_with_its_id() {
    let line = "{\"id\":\"q\",\"method\":\"tools/call\",\"params\":{\"name\":\"lan_inbox\",\"arguments\":{\"wait_ms\":9}}}";
    match serve(line, &brand()) {
        Served::Call { id, call } => {
            assert_eq!(to_text(id), "\"q\"");
            assert!(matches!(call, ToolCall::Inbox(9)));
        }
        _ => panic!("no call"),
    }
    match dispatch(read(line).unwrap(), &brand()) {
        Dispatch::Call { id, call } => {
            assert_eq!(to_text(id), "\"q\"");
            assert!(matches!(call, ToolCall::Inbox(9)));
        }
        _ => panic!("no call"),
    }
}

#[test]
fn a_finished_call_is_answered_with_its_outcome_as_text() {
    let outcome = read("{\"results\":[]}").unwrap();
    let out = String::from_utf8(finish_call(Json::Uint(4), Ok(outcome))).unwrap();
    assert_eq!(
        out,
        "{\"id\":4,\"jsonrpc\":\"2.0\",\"result\":{\"content\":[{\"text\":\"{\\\"results\\\":[]}\",\"type\":\"text\"}],\"isError\":false}}\n"
    );
    let out = finish_call(Json::Uint(4), Err(String::from("ack\ntimeout")));
    assert_eq!(
        String::from_utf8(out).unwrap(),
        "{\"id\":4,\"jsonrpc\":\"2.0\",\"result\":{\"content\":[{\"text\":\"ack\\ntimeout\",\"type\":\"text\"}],\"isError\":true}}\n"
    );
}

#[test]
fn responses_carry_a_result_or_an_error() {
    let ok = response_json(Json::Uint(1), Json::Bool(true));
    assert_eq!(to_text(ok), "{\"id\":1,\"jsonrpc\":\"2.0\",\"result\":true}");
    let err = error_json(Json::Uint(1), -5, String::from("no"));
    assert_eq!(
        to_text(err),
        "{\"error\":{\"code\":-5,\"message\":\"no\"},\"id\":1,\"jsonrpc\":\"2.0\"}"
    );
    let answer = tool_answer_json(String::from("t"), false);
    assert_eq!(to_text(answer), "{\"content\":[{\"text\":\"t\",\"type\":\"text\"}],\"isError\":false}");
    let result = call_result_json(Ok(Json::Uint(1)));
    assert_eq!(to_text(result), "{\"content\":[{\"text\":\"1\",\"type\":\"text\"}],\"isError\":false}");
}
