//! Messages between nodes: one line of JSON in, one line of acknowledgement out.
//! Instants are nanoseconds on a clock that never goes back.
use crate::json::add_member;
use crate::json::line_bytes;
use crate::json::max_depth;
use crate::json::parsed;
use crate::json::read;
use crate::json::readable;
use crate::json::rendered;
use crate::json::to_line;
use crate::json::to_text;
use crate::json::Json;
use crate::json::JsonView;
use crate::state::elapsed;
use crate::state::elapsed_nanos;
use crate::state::InboxMsg;
use crate::state::InboxView;
use crate::state::Shared;
use crate::state::SharedView;
use crate::text::copy;
use crate::text::join;
use crate::text::same;
use crate::text::trim;
use crate::text::trimmed;
use vstd::prelude::*;
use vstd::string::*;

verus! {

/// How long a node waits for a connection to a peer, in milliseconds.
pub const CONNECT_WITHIN: u64 = 1500;

/// How long a node waits for the acknowledgement of a message, in milliseconds.
pub const ACK_WITHIN: u64 = 2000;

/// How long a node waits for the line of a peer that has connected, in milliseconds.
pub const LINE_WITHIN: u64 = 5000;

/// A message on its way.
pub struct WireMsg {
    pub from_id: String,
    pub from_name: String,
    pub body: String,
}

/// How reading a line went.
pub enum LineRead {
    /// So many bytes came.
    Bytes(usize),
    /// It failed, and why.
    Failed(String),
    /// Nothing came in time.
    TimedOut,
}

/// What a [`WireMsg`] holds.
pub struct WireView {
    pub from_id: Seq<char>,
    pub from_name: Seq<char>,
    pub body: Seq<char>,
}

impl View for WireMsg {
    type V = WireView;

    open spec fn view(&self) -> WireView {
        WireView { from_id: self.from_id@, from_name: self.from_name@, body: self.body@ }
    }
}

/// The JSON for a message.
pub open spec fn wire_object(m: WireView) -> JsonView {
    JsonView::Object(
        map![
            "from_id"@ => JsonView::Text(m.from_id),
            "from_name"@ => JsonView::Text(m.from_name),
            "body"@ => JsonView::Text(m.body),
        ],
    )
}

/// The message of a node with this body.
pub open spec fn wire_msg(s: SharedView, body: Seq<char>) -> WireView {
    WireView { from_id: s.id, from_name: s.name, body }
}

/// The JSON for a message of a node.
pub open spec fn wire_json(s: SharedView, body: Seq<char>) -> JsonView {
    wire_object(wire_msg(s, body))
}

/// The JSON for a message.
fn message_value(from_id: &str, from_name: &str, body: &str) -> (j: Json)
    ensures
        j@ == wire_object(WireView { from_id: from_id@, from_name: from_name@, body: body@ }),
        readable(j@, max_depth()),
{
    let mut m: Vec<(String, Json)> = Vec::new();
    add_member(&mut m, "from_id", Json::text(from_id));
    add_member(&mut m, "from_name", Json::text(from_name));
    add_member(&mut m, "body", Json::text(body));
    let j = Json::Object(m);
    assert(j@ == wire_object(
        WireView { from_id: from_id@, from_name: from_name@, body: body@ },
    ));
    assert(readable(j@, max_depth())) by {
        reveal_with_fuel(readable, 2);
    }
    j
}

/// The message that a text is in the form in which nodes write it, if it is one: it reads as
/// JSON with the three members, and is what is written for them.
pub open spec fn plain(text: Seq<char>) -> Option<WireView> {
    match parsed(text) {
        Some(j) => match (j.text("from_id"@), j.text("from_name"@), j.text("body"@)) {
            (Some(from_id), Some(from_name), Some(body)) => {
                let m = WireView { from_id, from_name, body };
                if rendered(wire_object(m)) == text {
                    Some(m)
                } else {
                    None
                }
            },
            _ => None,
        },
        None => None,
    }
}

/// What a message holds, where there is one.
pub open spec fn message_view(msg: Option<WireMsg>) -> Option<WireView> {
    match msg {
        Some(msg) => Some(msg@),
        None => None,
    }
}

/// Reads a message in the form in which nodes write it.
pub fn plain_message(text: &str) -> (r: Option<WireMsg>)
    ensures
        message_view(r) == plain(text@),
{
    match read(text) {
        None => None,
        Some(j) => match (
            j.text_member("from_id"),
            j.text_member("from_name"),
            j.text_member("body"),
        ) {
            (Some(from_id), Some(from_name), Some(body)) => {
                let again = to_text(
                    message_value(from_id.as_str(), from_name.as_str(), body.as_str()),
                );
                if same(again.as_str(), text) {
                    Some(WireMsg { from_id, from_name, body })
                } else {
                    None
                }
            },
            _ => None,
        },
    }
}

/// Whether a line carries a message of a node: without white space at its ends it is the
/// text of the message, and reads as the message.
pub open spec fn carries(line: Seq<char>, s: SharedView, body: Seq<char>) -> bool {
    &&& trimmed(line) == rendered(wire_json(s, body))
    &&& parsed(trimmed(line)) == Some(wire_json(s, body))
}

/// The line that carries a message of a node. It has one line feed, at its end, and what
/// is before it reads as the message.
pub fn wire_line(shared: &Shared, body: &str) -> (r: Vec<u8>)
    ensures
        r@ == line_bytes(wire_json(shared@, body@)),
        !rendered(wire_json(shared@, body@)).contains('\n'),
        parsed(rendered(wire_json(shared@, body@))) == Some(wire_json(shared@, body@)),
        carries(rendered(wire_json(shared@, body@)).push('\n'), shared@, body@),
{
    let j = message_value(shared.id.as_str(), shared.name.as_str(), body);
    let line = to_line(j);
    proof {
        let text = rendered(wire_json(shared@, body@));
        assert(text.push('\n').drop_last() =~= text);
        reveal_with_fuel(trimmed, 2);
    }
    line
}

/// What has happened to a message that is being delivered.
pub enum SendEvent {
    /// It is to be delivered.
    Begin,
    Connected,
    ConnectTimedOut,
    /// The connection failed, and why.
    ConnectFailed(String),
    /// The line has been sent.
    Written,
    /// The line could not be sent, and why.
    WriteFailed(String),
    /// The acknowledgement has been waited for.
    Ack(LineRead),
}

/// What to do next about a message that is being delivered.
pub enum SendAction {
    /// Connect to the peer, within so many milliseconds.
    Connect(u64),
    /// Send these bytes.
    Write(Vec<u8>),
    /// Read one line, within so many milliseconds.
    AwaitAck(u64),
    /// It is over: delivered, with the round-trip time in microseconds, or not, and why.
    Finish(Result<u64, String>),
}

/// What a [`SendAction`] holds.
pub enum SendActionView {
    Connect(u64),
    Write(Seq<u8>),
    AwaitAck(u64),
    Finish(Result<u64, Seq<char>>),
}

impl View for SendAction {
    type V = SendActionView;

    open spec fn view(&self) -> SendActionView {
        match self {
            SendAction::Connect(ms) => SendActionView::Connect(*ms),
            SendAction::Write(bytes) => SendActionView::Write(bytes@),
            SendAction::AwaitAck(ms) => SendActionView::AwaitAck(*ms),
            SendAction::Finish(Ok(micros)) => SendActionView::Finish(Ok(*micros)),
            SendAction::Finish(Err(why)) => SendActionView::Finish(Err(why@)),
        }
    }
}

/// What comes next in the delivery of a message that began at `started`.
pub open spec fn sending(
    s: SharedView,
    body: Seq<char>,
    event: SendEvent,
    started: u64,
    now: u64,
) -> SendActionView {
    match event {
        SendEvent::Begin => SendActionView::Connect(CONNECT_WITHIN),
        SendEvent::Connected => SendActionView::Write(line_bytes(wire_json(s, body))),
        SendEvent::ConnectTimedOut => SendActionView::Finish(Err("connect timeout"@)),
        SendEvent::ConnectFailed(why) => SendActionView::Finish(Err("connect failed: "@ + why@)),
        SendEvent::Written => SendActionView::AwaitAck(ACK_WITHIN),
        SendEvent::WriteFailed(why) => SendActionView::Finish(Err("send failed: "@ + why@)),
        SendEvent::Ack(LineRead::Bytes(n)) => if n > 0 {
            SendActionView::Finish(Ok((elapsed(started, now) / 1000) as u64))
        } else {
            SendActionView::Finish(Err("peer closed connection without ack"@))
        },
        SendEvent::Ack(LineRead::Failed(why)) => SendActionView::Finish(
            Err("ack read failed: "@ + why@),
        ),
        SendEvent::Ack(LineRead::TimedOut) => SendActionView::Finish(Err("ack timeout"@)),
    }
}

/// Delivers one message to a peer and waits for its acknowledgement, step by step: says
/// what to do next after an event. `started` is the instant at which the delivery began.
pub fn send_message(
    shared: &Shared,
    body: &str,
    event: SendEvent,
    started: u64,
    now: u64,
) -> (r: SendAction)
    ensures
        r@ == sending(shared@, body@, event, started, now),
        event is Connected ==> exists|text: Seq<char>|
            r@ == SendActionView::Write(vstd::utf8::encode_utf8(#[trigger] text.push('\n')))
                && carries(text.push('\n'), shared@, body@) && !text.contains('\n'),
{
    match event {
        SendEvent::Begin => SendAction::Connect(CONNECT_WITHIN),
        SendEvent::Connected => {
            let line = wire_line(shared, body);
            assert(line@ == vstd::utf8::encode_utf8(
                rendered(wire_json(shared@, body@)).push('\n'),
            ));
            SendAction::Write(line)
        },
        SendEvent::ConnectTimedOut => SendAction::Finish(Err(copy("connect timeout"))),
        SendEvent::ConnectFailed(why) => SendAction::Finish(
            Err(join("connect failed: ", why.as_str())),
        ),
        SendEvent::Written => SendAction::AwaitAck(ACK_WITHIN),
        SendEvent::WriteFailed(why) => SendAction::Finish(
            Err(join("send failed: ", why.as_str())),
        ),
        SendEvent::Ack(LineRead::Bytes(n)) => if n > 0 {
            SendAction::Finish(Ok(elapsed_nanos(started, now) / 1000))
        } else {
            SendAction::Finish(Err(copy("peer closed connection without ack")))
        },
        SendEvent::Ack(LineRead::Failed(why)) => SendAction::Finish(
            Err(join("ack read failed: ", why.as_str())),
        ),
        SendEvent::Ack(LineRead::TimedOut) => SendAction::Finish(Err(copy("ack timeout"))),
    }
}

/// A message counts as delivered exactly when something came back for it.
pub proof fn delivered_when_acknowledged(
    s: SharedView,
    body: Seq<char>,
    event: SendEvent,
    started: u64,
    now: u64,
)
    ensures
        (sending(s, body, event, started, now) is Finish && sending(
            s,
            body,
            event,
            started,
            now,
        )->Finish_0 is Ok) <==> (event matches SendEvent::Ack(LineRead::Bytes(n)) && n > 0),
{
}

/// Whether an event is what comes of doing an action for a message.
pub open spec fn follows(event: SendEvent, action: SendActionView) -> bool {
    match action {
        SendActionView::Connect(_) => event is Connected || event is ConnectTimedOut
            || event is ConnectFailed,
        SendActionView::Write(_) => event is Written || event is WriteFailed,
        SendActionView::AwaitAck(_) => event is Ack,
        SendActionView::Finish(_) => false,
    }
}

/// How many actions are left at most in a delivery that does this one.
pub open spec fn steps_left(action: SendActionView) -> nat {
    match action {
        SendActionView::Connect(_) => 3,
        SendActionView::Write(_) => 2,
        SendActionView::AwaitAck(_) => 1,
        SendActionView::Finish(_) => 0,
    }
}

/// A delivery comes to an end: whatever comes of an action, fewer are left after it.
pub proof fn deliveries_come_to_an_end(
    s: SharedView,
    body: Seq<char>,
    action: SendActionView,
    event: SendEvent,
    started: u64,
    now: u64,
)
    requires
        follows(event, action),
    ensures
        steps_left(sending(s, body, event, started, now)) < steps_left(action),
{
}

/// What has happened on a connection that a peer has made.
pub enum InboxEvent {
    Accepted,
    /// A line has been waited for; `line` is what came of it.
    Read { read: LineRead, line: String },
    /// The line has been taken for a message, at this time in milliseconds since the
    /// epoch; none where it is no message.
    Parsed { msg: Option<WireMsg>, received_unix_ms: u64 },
}

/// What to do next on a connection that a peer has made.
pub enum InboxAction {
    /// Read one line, within so many milliseconds.
    AwaitLine(u64),
    /// Keep this message: hand it back with the time.
    Keep(WireMsg),
    /// Take this text for a message.
    Parse(String),
    /// Tell those who wait for messages, and send these bytes.
    Ack(Vec<u8>),
    Close,
}

/// What an [`InboxAction`] holds.
pub enum InboxActionView {
    AwaitLine(u64),
    Keep(WireView),
    Parse(Seq<char>),
    Ack(Seq<u8>),
    Close,
}

impl View for InboxAction {
    type V = InboxActionView;

    open spec fn view(&self) -> InboxActionView {
        match self {
            InboxAction::AwaitLine(ms) => InboxActionView::AwaitLine(*ms),
            InboxAction::Keep(msg) => InboxActionView::Keep(msg@),
            InboxAction::Parse(s) => InboxActionView::Parse(s@),
            InboxAction::Ack(bytes) => InboxActionView::Ack(bytes@),
            InboxAction::Close => InboxActionView::Close,
        }
    }
}

/// What a node keeps of a message that has come from an address.
pub open spec fn stored(msg: WireMsg, addr: Seq<char>, received_unix_ms: u64) -> InboxView {
    InboxView {
        from_id: msg.from_id@,
        from_name: msg.from_name@,
        from_addr: addr,
        body: msg.body@,
        received_unix_ms,
    }
}

/// What a node does at an event on a connection from an address: the node after it, and
/// what comes next.
pub open spec fn accepting(s: SharedView, event: InboxEvent, addr: Seq<char>) -> (
    SharedView,
    InboxActionView,
) {
    match event {
        InboxEvent::Accepted => (s, InboxActionView::AwaitLine(LINE_WITHIN)),
        InboxEvent::Read { read: LineRead::Bytes(n), line } => if n > 0 {
            (
                s,
                match plain(trimmed(line@)) {
                    Some(m) => InboxActionView::Keep(m),
                    None => InboxActionView::Parse(trimmed(line@)),
                },
            )
        } else {
            (s, InboxActionView::Close)
        },
        InboxEvent::Read { .. } => (s, InboxActionView::Close),
        InboxEvent::Parsed { msg: Some(msg), received_unix_ms } => (
            SharedView { inbox: s.inbox.push(stored(msg, addr, received_unix_ms)), ..s },
            InboxActionView::Ack(vstd::utf8::encode_utf8("{\"ok\":true}\n"@)),
        ),
        InboxEvent::Parsed { msg: None, .. } => (s, InboxActionView::Close),
    }
}

/// Accepts a message of a peer, step by step: one line of JSON in, one line of
/// acknowledgement out. Says what to do next after an event on a connection from `addr`,
/// and keeps the message. A line in the form in which nodes write their messages is read
/// here; any other is handed out to be taken for one.
pub fn inbox_listener(shared: &mut Shared, event: InboxEvent, addr: &str) -> (r: InboxAction)
    ensures
        final(shared)@ == accepting(old(shared)@, event, addr@).0,
        r@ == accepting(old(shared)@, event, addr@).1,
{
    match event {
        InboxEvent::Accepted => InboxAction::AwaitLine(LINE_WITHIN),
        InboxEvent::Read { read: LineRead::Bytes(n), line } => if n > 0 {
            let text = trim(line.as_str());
            match plain_message(text.as_str()) {
                Some(msg) => InboxAction::Keep(msg),
                None => InboxAction::Parse(text),
            }
        } else {
            InboxAction::Close
        },
        InboxEvent::Read { .. } => InboxAction::Close,
        InboxEvent::Parsed { msg: Some(msg), received_unix_ms } => {
            let ghost kept = stored(msg, addr@, received_unix_ms);
            shared.inbox.push(
                InboxMsg {
                    from_id: msg.from_id,
                    from_name: msg.from_name,
                    from_addr: copy(addr),
                    body: msg.body,
                    received_unix_ms,
                },
            );
            assert(shared@.inbox =~= old(shared)@.inbox.push(kept));
            InboxAction::Ack("{\"ok\":true}\n".as_bytes_vec())
        },
        InboxEvent::Parsed { msg: None, .. } => InboxAction::Close,
    }
}

/// A node acknowledges a message exactly when it keeps it.
pub proof fn acknowledges_what_it_keeps(s: SharedView, event: InboxEvent, addr: Seq<char>)
    ensures
        accepting(s, event, addr).1 is Ack <==> accepting(s, event, addr).0 != s,
{
    let after = accepting(s, event, addr).0;
    if event matches InboxEvent::Parsed { msg: Some(msg), received_unix_ms } {
        assert(after.inbox.len() == s.inbox.len() + 1);
    }
}

/// Whether an event is what comes of doing an action on a connection.
pub open spec fn comes_of(event: InboxEvent, action: InboxActionView) -> bool {
    match action {
        InboxActionView::AwaitLine(_) => event is Read,
        InboxActionView::Keep(m) => event matches InboxEvent::Parsed { msg: Some(msg), .. } && msg@
            == m,
        InboxActionView::Parse(_) => event is Parsed,
        InboxActionView::Ack(_) => false,
        InboxActionView::Close => false,
    }
}

/// How many actions are left at most on a connection after this one.
pub open spec fn actions_left(action: InboxActionView) -> nat {
    match action {
        InboxActionView::AwaitLine(_) => 2,
        InboxActionView::Keep(_) => 1,
        InboxActionView::Parse(_) => 1,
        InboxActionView::Ack(_) => 0,
        InboxActionView::Close => 0,
    }
}

/// A connection comes to an end: whatever comes of an action, fewer are left after it.
pub proof fn connections_come_to_an_end(
    s: SharedView,
    action: InboxActionView,
    event: InboxEvent,
    addr: Seq<char>,
)
    requires
        comes_of(event, action),
    ensures
        actions_left(accepting(s, event, addr).1) < actions_left(action),
{
}

}
