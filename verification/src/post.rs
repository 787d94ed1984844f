//! What happens to a message on its way: what is written for it, what is taken from what was
//! written, what is kept of it, and how it is handed out.
use crate::json::braced;
use crate::json::parsed;
use crate::json::rendered;
use crate::json::JsonView;
use crate::mail::accepting;
use crate::mail::carries;
use crate::mail::plain;
use crate::mail::sending;
use crate::mail::wire_json;
use crate::mail::wire_object;
use crate::mail::InboxActionView;
use crate::mail::InboxEvent;
use crate::mail::LineRead;
use crate::mail::SendActionView;
use crate::mail::SendEvent;
use crate::mail::WireView;
use crate::state::InboxView;
use crate::state::SharedView;
use crate::text::trimmed;
use crate::tools::messages_json;
use crate::tools::reading;
use crate::tools::InboxStepView;
use vstd::prelude::*;

verus! {

/// Whether a value is an object with these members and no others: who sends a message, by id
/// and by name, and its body.
pub open spec fn tells(
    j: JsonView,
    from_id: Seq<char>,
    from_name: Seq<char>,
    body: Seq<char>,
) -> bool {
    j matches JsonView::Object(m) && m.dom() =~= set!["from_id"@, "from_name"@, "body"@]
        && m["from_id"@] == JsonView::Text(from_id) && m["from_name"@] == JsonView::Text(from_name)
        && m["body"@] == JsonView::Text(body)
}

/// Two values that tell the same message are the same.
proof fn tells_one_thing(
    j: JsonView,
    k: JsonView,
    from_id: Seq<char>,
    from_name: Seq<char>,
    body: Seq<char>,
)
    requires
        tells(j, from_id, from_name, body),
        tells(k, from_id, from_name, body),
    ensures
        j == k,
{
    assert(j->Object_0 =~= k->Object_0);
}

/// The value that a message is written for tells it whole.
pub proof fn messages_are_told_whole(m: WireView)
    ensures
        tells(wire_object(m), m.from_id, m.from_name, m.body),
{
    reveal_strlit("from_id");
    reveal_strlit("from_name");
    reveal_strlit("body");
    assert("from_id"@.len() == 7);
    assert("from_name"@.len() == 9);
    assert("body"@.len() == 4);
}

/// What a delivery writes once it is connected is the line of the whole message: the text of
/// the value that tells the node's id, its name and the body, to the last character, and a
/// line feed.
pub proof fn the_whole_message_is_written(
    s: SharedView,
    body: Seq<char>,
    j: JsonView,
    started: u64,
    now: u64,
)
    requires
        tells(j, s.id, s.name, body),
    ensures
        sending(s, body, SendEvent::Connected, started, now) == SendActionView::Write(
            vstd::utf8::encode_utf8(rendered(j).push('\n')),
        ),
        wire_json(s, body) == j,
{
    messages_are_told_whole(WireView { from_id: s.id, from_name: s.name, body });
    tells_one_thing(j, wire_json(s, body), s.id, s.name, body);
}

/// A line that carries a message reads, without the white space at its ends, as the value that
/// tells the message whole, and is the text of that value.
pub proof fn a_line_carries_the_whole_message(line: Seq<char>, s: SharedView, body: Seq<char>)
    requires
        carries(line, s, body),
    ensures
        parsed(trimmed(line)) matches Some(j) && tells(j, s.id, s.name, body) && trimmed(line)
            == rendered(j),
{
    messages_are_told_whole(WireView { from_id: s.id, from_name: s.name, body });
}

/// What one node writes for a message, another takes for that message, to the letter. That the
/// text of the value begins and ends with its braces and reads as the value is what writing it
/// ensures.
pub proof fn what_is_written_is_taken(
    sender: SharedView,
    body: Seq<char>,
    j: JsonView,
    receiver: SharedView,
    addr: Seq<char>,
    line: String,
    bytes: usize,
    started: u64,
    now: u64,
)
    requires
        sending(sender, body, SendEvent::Connected, started, now) == SendActionView::Write(
            vstd::utf8::encode_utf8(line@),
        ),
        bytes > 0,
        tells(j, sender.id, sender.name, body),
        braced(rendered(j)),
        parsed(rendered(j)) == Some(j),
    ensures
        accepting(receiver, InboxEvent::Read { read: LineRead::Bytes(bytes), line }, addr).0
            == receiver,
        accepting(receiver, InboxEvent::Read { read: LineRead::Bytes(bytes), line }, addr).1
            == InboxActionView::Keep(
            (WireView { from_id: sender.id, from_name: sender.name, body }),
        ),
{
    the_whole_message_is_written(sender, body, j, started, now);
    let text = rendered(j);
    vstd::utf8::encode_utf8_decode_utf8(line@);
    vstd::utf8::encode_utf8_decode_utf8(text.push('\n'));
    assert(line@ == text.push('\n'));
    assert(trimmed(line@) == text) by {
        assert(text.push('\n').drop_last() =~= text);
        reveal_with_fuel(trimmed, 2);
    }
    what_is_plain(text, sender.id, sender.name, body, j);
}

/// A text is taken for a message of the plain form exactly where it is what is written for the
/// message, and reads so.
pub proof fn what_is_plain(
    text: Seq<char>,
    from_id: Seq<char>,
    from_name: Seq<char>,
    body: Seq<char>,
    j: JsonView,
)
    requires
        tells(j, from_id, from_name, body),
    ensures
        text == rendered(j) && parsed(text) == Some(j) ==> plain(text) == Some(
            (WireView { from_id, from_name, body }),
        ),
        plain(text) == Some((WireView { from_id, from_name, body })) ==> text == rendered(j)
            && parsed(text) is Some,
{
    let m = WireView { from_id, from_name, body };
    messages_are_told_whole(m);
    tells_one_thing(j, wire_object(m), from_id, from_name, body);
}

/// A delivery goes on after what has gone well, with the time that each step may take, and ends
/// with what went wrong, in whole, or with the time that it took in microseconds.
pub proof fn deliveries_go_step_by_step(
    s: SharedView,
    body: Seq<char>,
    why: String,
    n: usize,
    started: u64,
    now: u64,
)
    ensures
        sending(s, body, SendEvent::Begin, started, now) == SendActionView::Connect(1500),
        sending(s, body, SendEvent::Written, started, now) == SendActionView::AwaitAck(2000),
        sending(s, body, SendEvent::ConnectTimedOut, started, now) == SendActionView::Finish(
            Err("connect timeout"@),
        ),
        sending(s, body, SendEvent::ConnectFailed(why), started, now) == SendActionView::Finish(
            Err("connect failed: "@ + why@),
        ),
        sending(s, body, SendEvent::WriteFailed(why), started, now) == SendActionView::Finish(
            Err("send failed: "@ + why@),
        ),
        sending(s, body, SendEvent::Ack(LineRead::Failed(why)), started, now)
            == SendActionView::Finish(Err("ack read failed: "@ + why@)),
        sending(s, body, SendEvent::Ack(LineRead::TimedOut), started, now)
            == SendActionView::Finish(Err("ack timeout"@)),
        sending(s, body, SendEvent::Ack(LineRead::Bytes(0)), started, now)
            == SendActionView::Finish(Err("peer closed connection without ack"@)),
        n > 0 && started <= now ==> sending(
            s,
            body,
            SendEvent::Ack(LineRead::Bytes(n)),
            started,
            now,
        ) == SendActionView::Finish(Ok(((now - started) / 1000) as u64)),
        n > 0 && now < started ==> sending(
            s,
            body,
            SendEvent::Ack(LineRead::Bytes(n)),
            started,
            now,
        ) == SendActionView::Finish(Ok(0)),
{
}

/// A connection is read for five seconds at most; nothing but a line that came is taken for a
/// message, and that without the white space at its ends; nothing is kept before it is known
/// to be one.
pub proof fn connections_go_step_by_step(
    s: SharedView,
    addr: Seq<char>,
    line: String,
    why: String,
    n: usize,
    ms: u64,
)
    ensures
        accepting(s, InboxEvent::Accepted, addr) == (s, InboxActionView::AwaitLine(5000)),
        accepting(s, InboxEvent::Read { read: LineRead::Bytes(0), line }, addr) == (
            s,
            InboxActionView::Close,
        ),
        accepting(s, InboxEvent::Read { read: LineRead::Failed(why), line }, addr) == (
            s,
            InboxActionView::Close,
        ),
        accepting(s, InboxEvent::Read { read: LineRead::TimedOut, line }, addr) == (
            s,
            InboxActionView::Close,
        ),
        n > 0 ==> accepting(s, InboxEvent::Read { read: LineRead::Bytes(n), line }, addr).0 == s,
        n > 0 && plain(trimmed(line@)) is None ==> accepting(
            s,
            InboxEvent::Read { read: LineRead::Bytes(n), line },
            addr,
        ).1 == InboxActionView::Parse(trimmed(line@)),
        n > 0 && plain(trimmed(line@)) is Some ==> accepting(
            s,
            InboxEvent::Read { read: LineRead::Bytes(n), line },
            addr,
        ).1 == InboxActionView::Keep(plain(trimmed(line@))->0),
        accepting(s, InboxEvent::Parsed { msg: None, received_unix_ms: ms }, addr) == (
            s,
            InboxActionView::Close,
        ),
{
}

/// A message that has come is put behind the others with who sent it, its whole body, where it
/// came from and when; nothing else about the node changes, and the acknowledgement goes out.
pub proof fn a_message_is_kept_whole(
    s: SharedView,
    msg: crate::mail::WireMsg,
    addr: Seq<char>,
    ms: u64,
)
    ensures
        ({
            let (after, action) = accepting(
                s,
                InboxEvent::Parsed { msg: Some(msg), received_unix_ms: ms },
                addr,
            );
            let n = s.inbox.len() as int;
            &&& after.inbox.len() == n + 1
            &&& forall|i: int| 0 <= i < n ==> (#[trigger] after.inbox[i]) == s.inbox[i]
            &&& after.inbox[n].from_id == msg.from_id@
            &&& after.inbox[n].from_name == msg.from_name@
            &&& after.inbox[n].from_addr == addr
            &&& after.inbox[n].body == msg.body@
            &&& after.inbox[n].received_unix_ms == ms
            &&& after.id == s.id
            &&& after.name == s.name
            &&& after.tcp_port == s.tcp_port
            &&& after.peers == s.peers
            &&& after.last_probe_at == s.last_probe_at
            &&& action == InboxActionView::Ack(
                vstd::utf8::encode_utf8("{\"ok\":true}\n"@),
            )
        }),
{
}

/// Whether a value is an object with these members and no others: a message that has come, with
/// who sent it, where from, its body, and when it came.
pub open spec fn hands_out(j: JsonView, m: InboxView) -> bool {
    j matches JsonView::Object(o) && o.dom() =~= set![
        "from"@,
        "from_id"@,
        "from_ip"@,
        "body"@,
        "received_unix_ms"@,
    ] && o["from"@] == JsonView::Text(m.from_name) && o["from_id"@] == JsonView::Text(m.from_id)
        && o["from_ip"@] == JsonView::Text(m.from_addr) && o["body"@] == JsonView::Text(m.body)
        && o["received_unix_ms"@] == JsonView::Int(m.received_unix_ms as int)
}

/// Whether a value is an object with these members and no others: a count, and a list that has
/// so many entries.
pub open spec fn counts_and_lists(j: JsonView, name: Seq<char>, entries: Seq<JsonView>) -> bool {
    j matches JsonView::Object(o) && o.dom() =~= set!["count"@, name] && o["count"@]
        == JsonView::Int(entries.len() as int) && o[name] == JsonView::List(entries)
}

/// The reply of a reader has one entry for each message, in the order in which they came, each
/// whole, and counts them.
pub proof fn every_message_is_handed_out(inbox: Seq<InboxView>) -> (entries: Seq<JsonView>)
    ensures
        counts_and_lists(messages_json(inbox), "messages"@, entries),
        entries.len() == inbox.len(),
        forall|i: int| 0 <= i < inbox.len() ==> hands_out(#[trigger] entries[i], inbox[i]),
{
    reveal_strlit("count");
    reveal_strlit("messages");
    reveal_strlit("from");
    reveal_strlit("from_id");
    reveal_strlit("from_ip");
    reveal_strlit("body");
    reveal_strlit("received_unix_ms");
    assert("count"@.len() == 5 && "messages"@.len() == 8);
    assert("from"@.len() == 4 && "body"@.len() == 4 && "from"@[0] == 'f' && "body"@[0] == 'b');
    assert("from_id"@.len() == 7 && "from_ip"@.len() == 7);
    assert("from_id"@[6] == 'd' && "from_ip"@[6] == 'p');
    assert("received_unix_ms"@.len() == 16);
    messages_json(inbox)->Object_0["messages"@]->List_0
}

/// A reader whose inbox has messages, or whose time is up, gets them all, and none is left; one
/// whose inbox is empty waits for what is left of its time, and nothing changes. Nothing else
/// about the node ever does. The time is what was asked for, twenty-five seconds at most.
pub proof fn reading_takes_all_or_waits(s: SharedView, wait_ms: u64, started: u64, now: u64)
    ensures
        ({
            let (after, step) = reading(s, wait_ms, started, now);
            let most: int = if wait_ms < 25_000 {
                wait_ms * 1_000_000
            } else {
                25_000_000_000
            };
            let gone: int = if started <= now {
                now - started
            } else {
                0
            };
            let waits = s.inbox.len() == 0 && gone < most;
            &&& waits ==> after == s && step == InboxStepView::Wait((most - gone) as u64)
            &&& !waits ==> after.inbox.len() == 0
            &&& !waits ==> step == InboxStepView::Done(messages_json(s.inbox))
            &&& after.id == s.id
            &&& after.name == s.name
            &&& after.tcp_port == s.tcp_port
            &&& after.peers == s.peers
            &&& after.last_probe_at == s.last_probe_at
        }),
{
}

}
