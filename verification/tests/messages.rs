//! Messages between nodes, and the tools that send and read them.
use lan_mcp::json::{to_text, Json};
use lan_mcp::mail::{
    inbox_listener, plain_message, send_message, wire_line, InboxAction, InboxEvent, LineRead, SendAction,
    SendEvent, WireMsg,
};
use lan_mcp::mcp::ToolCall;
use lan_mcp::net::upsert_peer;
use lan_mcp::state::Shared;
use lan_mcp::tools::{
    delivered_entry, handle_call, inbox_tool, peer_entry, peers_json, resolve, send_report,
    send_tool, whoami, CallAction, CallEvent, Delivery, InboxStep, SendStep, Target,
};

const MS: u64 = 1_000_000;
const SEC: u64 = 1_000_000_000;

fn text(t: &str) -> String {
    String::from(t)
}

fn some(t: &str) -> Option<String> {
    Some(String::from(t))
}

fn node() -> Shared {
    Shared::seeded(9000, 1, 0, some("me"), "host")
}

fn with_peers(peers: &[(&str, &str)]) -> Shared {
    let mut s = node();
    let mut n: u16 = 0;
    for (id, name) in peers {
        n += 1;
        upsert_peer(&mut s, text(id), text(name), format!("10.0.0.{n}"), 7000 + n, None, SEC);
    }
    s
}

fn found(s: &Shared, to: &str) -> Vec<(String, String, u16)> {
    let targets: Vec<Target> = resolve(s, to);
    targets.into_iter().map(|t| (t.name, t.addr, t.port)).collect()
}

fn beta() -> (String, String, u16) {
    (text("beta"), text("10.0.0.2"), 7002)
}

#[test]
fn a_message_goes_out_as_one_line_of_json() {
    let s = node();
    let line = wire_line(&s, "hi\n\"there\" — you");
    let expected = "{\"body\":\"hi\\n\\\"there\\\" — you\",\"from_id\":\"9e3779b9\",\"from_name\":\"me\"}\n";
    assert_eq!(line, expected.as_bytes());
}

#[test]
fn what_a_message_says_is_read_back_from_its_line() {
    let s = node();
    let body = "a\u{0}b\r\n\u{2028}\\ \u{1f600}";
    let line = String::from_utf8(wire_line(&s, body)).unwrap();
    assert_eq!(line.matches('\n').count(), 1);
    let j = lan_mcp::json::read(line.trim()).unwrap();
    assert_eq!(j.text_member("from_id"), Some(s.id));
    assert_eq!(j.text_member("from_name"), some("me"));
    assert_eq!(j.text_member("body"), some(body));
}

fn step(event: SendEvent) -> SendAction {
    send_message(&node(), "hi", event, 1000, 4_001_999)
}

fn failure(event: SendEvent) -> String {
    match step(event) {
        SendAction::Finish(Err(why)) => why,
        _ => panic!("no failure"),
    }
}

#[test]
fn a_delivery_connects_writes_and_waits_for_the_acknowledgement() {
    assert!(matches!(step(SendEvent::Begin), SendAction::Connect(1500)));
    match step(SendEvent::Connected) {
        SendAction::Write(bytes) => assert_eq!(bytes, wire_line(&node(), "hi")),
        _ => panic!("nothing to write"),
    }
    assert!(matches!(step(SendEvent::Written), SendAction::AwaitAck(2000)));
    assert!(matches!(
        step(SendEvent::Ack(LineRead::Bytes(12))),
        SendAction::Finish(Ok(4000))
    ));
}

#[test]
fn a_delivery_fails_with_a_reason() {
    assert_eq!(failure(SendEvent::ConnectTimedOut), "connect timeout");
    assert_eq!(failure(SendEvent::ConnectFailed(text("refused"))), "connect failed: refused");
    assert_eq!(failure(SendEvent::WriteFailed(text("broken pipe"))), "send failed: broken pipe");
    assert_eq!(
        failure(SendEvent::Ack(LineRead::Bytes(0))),
        "peer closed connection without ack"
    );
    assert_eq!(
        failure(SendEvent::Ack(LineRead::Failed(text("reset")))),
        "ack read failed: reset"
    );
    assert_eq!(failure(SendEvent::Ack(LineRead::TimedOut)), "ack timeout");
}

fn message(body: &str) -> Option<WireMsg> {
    Some(WireMsg { from_id: text("b"), from_name: text("beta"), body: text(body) })
}

fn deliver(s: &mut Shared, body: &str, ms: u64) {
    let event = InboxEvent::Parsed { msg: message(body), received_unix_ms: ms };
    assert!(matches!(inbox_listener(s, event, "10.0.0.2"), InboxAction::Ack(_)));
}

#[test]
fn a_message_that_comes_is_kept_and_acknowledged() {
    let mut s = node();
    assert!(matches!(
        inbox_listener(&mut s, InboxEvent::Accepted, "10.0.0.2"),
        InboxAction::AwaitLine(5000)
    ));
    let event = InboxEvent::Read { read: LineRead::Bytes(9), line: text(" {\"x\":1}\r\n") };
    match inbox_listener(&mut s, event, "10.0.0.2") {
        InboxAction::Parse(t) => assert_eq!(t, "{\"x\":1}"),
        _ => panic!("nothing to parse"),
    }
    assert!(s.inbox.is_empty());
    let event = InboxEvent::Parsed { msg: message("hello"), received_unix_ms: 77 };
    match inbox_listener(&mut s, event, "10.0.0.2") {
        InboxAction::Ack(bytes) => assert_eq!(bytes, b"{\"ok\":true}\n"),
        _ => panic!("no acknowledgement"),
    }
    assert_eq!(s.inbox.len(), 1);
    let m = &s.inbox[0];
    assert_eq!(
        (m.from_id.as_str(), m.from_name.as_str(), m.from_addr.as_str(), m.body.as_str()),
        ("b", "beta", "10.0.0.2", "hello")
    );
    assert_eq!(m.received_unix_ms, 77);
}

#[test]
fn what_is_no_message_is_neither_kept_nor_acknowledged() {
    let mut s = node();
    let events = vec![
        InboxEvent::Read { read: LineRead::Bytes(0), line: String::new() },
        InboxEvent::Read { read: LineRead::Failed(text("reset")), line: text("{}") },
        InboxEvent::Read { read: LineRead::TimedOut, line: text("{") },
        InboxEvent::Parsed { msg: None, received_unix_ms: 5 },
    ];
    for event in events {
        assert!(matches!(inbox_listener(&mut s, event, "10.0.0.2"), InboxAction::Close));
        assert!(s.inbox.is_empty());
    }
}

#[test]
fn a_message_finds_its_peer_by_id_or_whole_name() {
    let s = with_peers(&[("aa", "beta-2"), ("bb", "beta"), ("cc", "gamma")]);
    assert_eq!(found(&s, "beta"), vec![beta()]);
    assert_eq!(found(&s, "bb"), vec![beta()]);
    // An id must be whole.
    assert!(found(&s, "b-").is_empty());
    assert!(found(&s, "c").is_empty());
}

#[test]
fn a_message_finds_its_peer_by_the_only_name_that_starts_so() {
    let s = with_peers(&[("aa", "alpha-3f2c"), ("bb", "beta"), ("cc", "bravo")]);
    assert_eq!(found(&s, "alpha"), vec![(text("alpha-3f2c"), text("10.0.0.1"), 7001)]);
    assert_eq!(found(&s, "be"), vec![beta()]);
    assert!(found(&s, "b").is_empty());
    assert!(found(&s, "").is_empty());
    assert!(found(&s, "delta").is_empty());
    let one = with_peers(&[("aa", "alpha")]);
    assert_eq!(found(&one, "").len(), 1);
}

#[test]
fn a_message_to_all_goes_to_every_peer() {
    let s = with_peers(&[("aa", "alpha"), ("bb", "beta"), ("cc", "all")]);
    for to in ["all", "*"] {
        let names: Vec<String> = found(&s, to).into_iter().map(|t| t.0).collect();
        assert_eq!(names, vec!["alpha", "beta", "all"]);
    }
    assert!(found(&node(), "all").is_empty());
}

#[test]
fn sending_asks_for_both_arguments() {
    let s = with_peers(&[("bb", "beta")]);
    let cases = [
        (None, None, "missing required argument 'to'"),
        (None, some("hi"), "missing required argument 'to'"),
        (some("beta"), None, "missing required argument 'message'"),
    ];
    for (to, message, why) in cases {
        for scanned in [false, true] {
            match send_tool(&s, &to, &message, scanned) {
                SendStep::Fail(reason) => assert_eq!(reason, why),
                _ => panic!("no failure"),
            }
        }
    }
}

#[test]
fn sending_to_somebody_unknown_scans_once() {
    let s = with_peers(&[("bb", "beta")]);
    assert!(matches!(send_tool(&s, &some("gamma"), &some("hi"), false), SendStep::Scan(350)));
    match send_tool(&s, &some("gamma"), &some("hi"), true) {
        SendStep::Fail(why) => assert_eq!(
            why,
            "no peer matching 'gamma' found on the LAN (try lan_discover)"
        ),
        _ => panic!("no failure"),
    }
    match send_tool(&s, &some("beta"), &some("hi"), false) {
        SendStep::Deliver { targets, message } => {
            assert_eq!(targets.len(), 1);
            assert_eq!(message, "hi");
        }
        _ => panic!("no delivery"),
    }
}

#[test]
fn deliveries_are_reported_in_turn() {
    let report = send_report(vec![
        Delivery { peer: text("beta"), outcome: Ok(1250) },
        Delivery { peer: text("gamma"), outcome: Err(text("ack timeout")) },
        Delivery { peer: text("delta"), outcome: Ok(49) },
    ]);
    let expected = "{\"results\":[{\"delivered\":true,\"peer\":\"beta\",\"rtt_ms\":1.3},\
        {\"delivered\":false,\"error\":\"ack timeout\",\"peer\":\"gamma\"},\
        {\"delivered\":true,\"peer\":\"delta\",\"rtt_ms\":0.0}]}";
    assert_eq!(to_text(report), expected);
    assert_eq!(to_text(send_report(Vec::new())), "{\"results\":[]}");
    let entry = delivered_entry(text("beta"), Json::Uint(3));
    assert_eq!(to_text(entry), "{\"delivered\":true,\"peer\":\"beta\",\"rtt_ms\":3}");
}

#[test]
fn messages_are_handed_out_in_order_and_once() {
    let mut s = node();
    deliver(&mut s, "one", 1);
    deliver(&mut s, "two", 2);
    let entry = |body: &str, ms: u64| {
        format!(
            "{{\"body\":\"{body}\",\"from\":\"beta\",\"from_id\":\"b\",\"from_ip\":\"10.0.0.2\",\"received_unix_ms\":{ms}}}"
        )
    };
    match inbox_tool(&mut s, 1000, SEC, SEC) {
        InboxStep::Done(j) => assert_eq!(
            to_text(j),
            format!("{{\"count\":2,\"messages\":[{},{}]}}", entry("one", 1), entry("two", 2))
        ),
        _ => panic!("no reply"),
    }
    assert!(s.inbox.is_empty());
    match inbox_tool(&mut s, 0, SEC, SEC) {
        InboxStep::Done(j) => assert_eq!(to_text(j), "{\"count\":0,\"messages\":[]}"),
        _ => panic!("no reply"),
    }
}

#[test]
fn a_reader_waits_until_a_message_comes_or_its_time_is_up() {
    let mut s = node();
    let start: u64 = 7 * SEC;
    assert!(matches!(inbox_tool(&mut s, 250, start, start), InboxStep::Wait(250_000_000)));
    // Woken early with nothing there: it goes on for what is left.
    let early: u64 = start + 100 * MS + 1;
    assert!(matches!(inbox_tool(&mut s, 250, start, early), InboxStep::Wait(149_999_999)));
    let last: u64 = start + 250 * MS - 1;
    assert!(matches!(inbox_tool(&mut s, 250, start, last), InboxStep::Wait(1)));
    match inbox_tool(&mut s, 250, start, start + 250 * MS) {
        InboxStep::Done(j) => assert_eq!(j.uint_member("count"), Some(0)),
        _ => panic!("no reply"),
    }
    deliver(&mut s, "late", 3);
    match inbox_tool(&mut s, 250, start, early) {
        InboxStep::Done(j) => assert_eq!(j.uint_member("count"), Some(1)),
        _ => panic!("no reply"),
    }
}

#[test]
fn a_reader_waits_no_longer_than_the_greatest_wait() {
    let mut s = node();
    let most: u64 = 25 * SEC;
    assert!(matches!(inbox_tool(&mut s, 24_999, 0, 0), InboxStep::Wait(24_999_000_000)));
    assert!(matches!(inbox_tool(&mut s, 25_000, 0, 0), InboxStep::Wait(25_000_000_000)));
    assert!(matches!(inbox_tool(&mut s, u64::MAX, 0, 0), InboxStep::Wait(25_000_000_000)));
    assert!(matches!(inbox_tool(&mut s, u64::MAX, 0, most - 1), InboxStep::Wait(1)));
    assert!(matches!(inbox_tool(&mut s, u64::MAX, 0, most), InboxStep::Done(_)));
}

#[test]
fn connections_side_by_side_each_bring_one_message() {
    let mut s = node();
    let read = || InboxEvent::Read { read: LineRead::Bytes(3), line: text("{}\n") };
    // The second connection stalls.
    for addr in ["10.0.0.2", "10.0.0.3", "10.0.0.4"] {
        assert!(matches!(
            inbox_listener(&mut s, InboxEvent::Accepted, addr),
            InboxAction::AwaitLine(5000)
        ));
    }
    for addr in ["10.0.0.4", "10.0.0.2"] {
        assert!(matches!(inbox_listener(&mut s, read(), addr), InboxAction::Parse(_)));
    }
    let mut acked: usize = 0;
    for addr in ["10.0.0.2", "10.0.0.4"] {
        let event = InboxEvent::Parsed { msg: message(addr), received_unix_ms: 1 };
        assert!(matches!(inbox_listener(&mut s, event, addr), InboxAction::Ack(_)));
        acked += 1;
        assert_eq!(s.inbox.len(), acked);
        assert_eq!(s.inbox[acked - 1].from_addr, addr);
    }
    let stalled = InboxEvent::Read { read: LineRead::TimedOut, line: String::new() };
    assert!(matches!(inbox_listener(&mut s, stalled, "10.0.0.3"), InboxAction::Close));
    assert_eq!(s.inbox.len(), 2);
}

#[test]
fn a_message_goes_from_one_node_to_the_other() {
    let sender = node();
    let mut receiver = Shared::seeded(9001, 2, 0, some("you"), "host");
    deliver(&mut receiver, "earlier", 1);
    for body in ["", "two\nlines\r\n", "\"quoted\" \\ — \u{1f600}\u{0}", "  spaced  "] {
        let line = String::from_utf8(wire_line(&sender, body)).unwrap();
        let event = InboxEvent::Read { read: LineRead::Bytes(line.len()), line };
        let InboxAction::Keep(msg) = inbox_listener(&mut receiver, event, "10.0.0.1") else {
            panic!("nothing taken");
        };
        let msg = Some(msg);
        let event = InboxEvent::Parsed { msg, received_unix_ms: 9 };
        let InboxAction::Ack(ack) = inbox_listener(&mut receiver, event, "10.0.0.1") else {
            panic!("no acknowledgement");
        };
        let m = receiver.inbox.last().unwrap();
        assert_eq!((m.from_id.as_str(), m.from_name.as_str()), (sender.id.as_str(), "me"));
        assert_eq!((m.body.as_str(), m.from_addr.as_str()), (body, "10.0.0.1"));
        let event = SendEvent::Ack(LineRead::Bytes(ack.len()));
        assert!(matches!(
            send_message(&sender, body, event, 0, 5000),
            SendAction::Finish(Ok(5))
        ));
    }
    assert_eq!(receiver.inbox.len(), 5);
    assert_eq!(receiver.inbox[0].body, "earlier");
}

#[test]
fn a_node_tells_who_it_is() {
    let expected = |ip: &str| {
        format!(
            "{{\"discovery_port\":48618,\"id\":\"9e3779b9\",\"ip\":{ip},\"multicast_group\":\"239.92.108.99\",\"name\":\"me\",\"tcp_port\":9000}}"
        )
    };
    assert_eq!(to_text(whoami(&node(), 48618, some("10.0.0.1"))), expected("\"10.0.0.1\""));
    assert_eq!(to_text(whoami(&node(), 48618, None)), expected("null"));
}

#[test]
fn peers_are_listed_by_name_with_their_times() {
    let mut s = with_peers(&[("cc", "gamma"), ("aa", "alpha"), ("bb", "Beta")]);
    s.peers[0].rtt_micros = Some(850);
    let now: u64 = SEC + 2_349_999_999;
    let entry = |id: &str, name: &str, n: u16, rtt: &str| {
        format!(
            "{{\"id\":\"{id}\",\"ip\":\"10.0.0.{n}\",\"last_seen_secs_ago\":2.3,\"name\":\"{name}\",\"rtt_ms\":{rtt},\"tcp_port\":700{n}}}"
        )
    };
    assert_eq!(
        to_text(peers_json(&s, now)),
        format!(
            "{{\"count\":3,\"peers\":[{},{},{}]}}",
            entry("bb", "Beta", 3, "null"),
            entry("aa", "alpha", 2, "null"),
            entry("cc", "gamma", 1, "0.9")
        )
    );
    assert_eq!(to_text(peers_json(&node(), now)), "{\"count\":0,\"peers\":[]}");
    let one = peer_entry(&s.peers[1], Json::Uint(1), Json::Null);
    assert_eq!(
        to_text(one),
        "{\"id\":\"aa\",\"ip\":\"10.0.0.2\",\"last_seen_secs_ago\":null,\"name\":\"alpha\",\"rtt_ms\":1,\"tcp_port\":7002}"
    );
}

#[test]
fn peers_with_one_name_are_all_listed() {
    let s = with_peers(&[("cc", "twin"), ("aa", "twin"), ("bb", "alone")]);
    let j = peers_json(&s, SEC);
    assert_eq!(j.uint_member("count"), Some(3));
    let text = to_text(j);
    for id in ["\"aa\"", "\"bb\"", "\"cc\""] {
        assert_eq!(text.matches(id).count(), 1);
    }
    assert!(text.find("alone").unwrap() < text.find("twin").unwrap());
}

fn finished(action: CallAction) -> String {
    match action {
        CallAction::Finish(Ok(j)) => to_text(j),
        CallAction::Finish(Err(why)) => format!("error: {why}"),
        _ => panic!("not finished"),
    }
}

#[test]
fn calls_of_the_tools_go_step_by_step() {
    let mut s = with_peers(&[("bb", "beta")]);
    let peers = to_text(peers_json(&s, SEC));

    let call = ToolCall::Whoami;
    assert!(matches!(handle_call(&mut s, &call, CallEvent::Begin, 5, SEC, SEC), CallAction::FindIp));
    let ip = CallEvent::FoundIp(some("10.0.0.9"));
    let who = to_text(whoami(&s, 5, some("10.0.0.9")));
    assert_eq!(finished(handle_call(&mut s, &call, ip, 5, SEC, SEC)), who);

    let call = ToolCall::Discover(300);
    assert!(matches!(
        handle_call(&mut s, &call, CallEvent::Begin, 5, SEC, SEC),
        CallAction::Scan(300)
    ));
    assert_eq!(finished(handle_call(&mut s, &call, CallEvent::Scanned, 5, SEC, SEC)), peers);

    let call = ToolCall::Peers;
    assert_eq!(finished(handle_call(&mut s, &call, CallEvent::Begin, 5, SEC, SEC)), peers);

    let call = ToolCall::Send { to: some("gamma"), message: some("hi") };
    assert!(matches!(
        handle_call(&mut s, &call, CallEvent::Begin, 5, SEC, SEC),
        CallAction::Scan(350)
    ));
    assert_eq!(
        finished(handle_call(&mut s, &call, CallEvent::Scanned, 5, SEC, SEC)),
        "error: no peer matching 'gamma' found on the LAN (try lan_discover)"
    );
    let call = ToolCall::Send { to: some("be"), message: some("hi") };
    match handle_call(&mut s, &call, CallEvent::Begin, 5, SEC, SEC) {
        CallAction::Deliver { targets, message } => {
            assert_eq!(targets.len(), 1);
            assert_eq!((targets[0].name.as_str(), targets[0].port), ("beta", 7001));
            assert_eq!(message, "hi");
        }
        _ => panic!("no delivery"),
    }
    let sent = CallEvent::Sent(vec![Delivery { peer: text("beta"), outcome: Ok(300) }]);
    assert_eq!(
        finished(handle_call(&mut s, &call, sent, 5, SEC, SEC)),
        "{\"results\":[{\"delivered\":true,\"peer\":\"beta\",\"rtt_ms\":0.3}]}"
    );

    let call = ToolCall::Inbox(100);
    assert!(matches!(
        handle_call(&mut s, &call, CallEvent::Begin, 5, SEC, SEC),
        CallAction::Wait(100_000_000)
    ));
    deliver(&mut s, "late", 3);
    let reply = finished(handle_call(&mut s, &call, CallEvent::Waited, 5, SEC, SEC));
    assert!(reply.starts_with("{\"count\":1,"));
    assert!(s.inbox.is_empty());
    assert_eq!(s.peers.len(), 1);
}

#[test]
fn calls_and_messages_leave_a_node_what_it_is() {
    let mut s = with_peers(&[("bb", "beta")]);
    deliver(&mut s, "one", 1);
    let calls = vec![
        ToolCall::Whoami,
        ToolCall::Discover(1),
        ToolCall::Peers,
        ToolCall::Send { to: some("all"), message: some("x") },
        ToolCall::Send { to: None, message: None },
    ];
    for call in calls {
        handle_call(&mut s, &call, CallEvent::Begin, 5, SEC, SEC);
        assert_eq!((s.inbox.len(), s.peers.len()), (1, 1));
    }
    handle_call(&mut s, &ToolCall::Inbox(0), CallEvent::Begin, 5, SEC, SEC);
    assert_eq!((s.inbox.len(), s.peers.len()), (0, 1));
    assert_eq!((s.id.as_str(), s.name.as_str(), s.tcp_port), ("9e3779b9", "me", 9000));
    assert_eq!(s.last_probe_at, None);
}

#[test]
fn only_messages_as_nodes_write_them_are_plain() {
    let written = "{\"body\":\"hi\",\"from_id\":\"b\",\"from_name\":\"beta\"}";
    let m = plain_message(written).unwrap();
    assert_eq!((m.from_id.as_str(), m.from_name.as_str(), m.body.as_str()), ("b", "beta", "hi"));
    let others = [
        "", "{}", "[\"b\",\"beta\",\"hi\"]",
        "{\"from_id\":\"b\",\"from_name\":\"beta\",\"body\":\"hi\"}",
        "{\"body\":\"hi\",\"body\":\"hi\",\"from_id\":\"b\",\"from_name\":\"beta\"}",
        "{\"body\":\"hi\",\"from_id\":\"b\",\"from_name\":\"beta\",\"more\":1}",
        "{\"body\":\"hi\",\"from_id\":\"b\",\"from_name\": \"beta\"}",
        "{\"body\":\"hi\",\"from_id\":\"b\"}",
        "{\"body\":7,\"from_id\":\"b\",\"from_name\":\"beta\"}",
    ];
    let mut s = node();
    for other in others {
        assert!(plain_message(other).is_none(), "{other}");
        let event = InboxEvent::Read { read: LineRead::Bytes(9), line: format!("{other}\n") };
        match inbox_listener(&mut s, event, "10.0.0.2") {
            InboxAction::Parse(t) => assert_eq!(t, other),
            _ => panic!("not handed out"),
        }
    }
}
