//! What the contracts speak of is all that is there: every view shows every field, as it is.
use crate::json::list_view;
use crate::json::members_list;
use crate::json::members_view;
use crate::json::whole;
use crate::json::Json;
use crate::json::JsonView;
use crate::mail::message_view;
use crate::mail::InboxAction;
use crate::mail::InboxActionView;
use crate::mail::SendAction;
use crate::mail::SendActionView;
use crate::mail::WireMsg;
use crate::mcp::asked_view;
use crate::mcp::outcome_view;
use crate::mcp::Brand;
use crate::mcp::CallView;
use crate::mcp::Dispatch;
use crate::mcp::DispatchView;
use crate::mcp::Served;
use crate::mcp::ServedView;
use crate::mcp::ToolCall;
use crate::net::answer_view;
use crate::net::AnnounceAction;
use crate::net::AnnounceView;
use crate::net::Packet;
use crate::net::PacketView;
use crate::state::inbox_view;
use crate::state::node_view;
use crate::state::option_view;
use crate::state::peers_view;
use crate::state::InboxMsg;
use crate::state::PeerInfo;
use crate::state::Shared;
use crate::tools::targets_view;
use crate::tools::CallAction;
use crate::tools::CallActionView;
use crate::tools::InboxStep;
use crate::tools::InboxStepView;
use crate::tools::SendStep;
use crate::tools::SendStepView;
use crate::tools::Target;
use vstd::prelude::*;

verus! {

/// A peer is shown with every field.
pub proof fn a_peer_is_shown(p: PeerInfo)
    ensures
        p@.id == p.id@,
        p@.name == p.name@,
        p@.addr == p.addr@,
        p@.tcp_port == p.tcp_port,
        p@.last_seen == p.last_seen,
        p@.rtt_micros == p.rtt_micros,
{
}

/// A message that has come is shown with every field.
pub proof fn a_message_is_shown(m: InboxMsg)
    ensures
        m@.from_id == m.from_id@,
        m@.from_name == m.from_name@,
        m@.from_addr == m.from_addr@,
        m@.body == m.body@,
        m@.received_unix_ms == m.received_unix_ms,
{
}

/// A node is shown with every field, and with every peer and every message in its place.
pub proof fn a_node_is_shown(s: Shared)
    ensures
        s@.id == s.id@,
        s@.name == s.name@,
        s@.tcp_port == s.tcp_port,
        s@.last_probe_at == s.last_probe_at,
        s@.peers.len() == s.peers@.len(),
        forall|i: int| 0 <= i < s.peers@.len() ==> (#[trigger] s@.peers[i]) == s.peers@[i]@,
        s@.inbox.len() == s.inbox@.len(),
        forall|i: int| 0 <= i < s.inbox@.len() ==> (#[trigger] s@.inbox[i]) == s.inbox@[i]@,
{
}

/// Lists of peers, messages and targets are shown item by item.
pub proof fn lists_are_shown(peers: Seq<PeerInfo>, msgs: Seq<InboxMsg>, targets: Seq<Target>)
    ensures
        peers_view(peers).len() == peers.len(),
        forall|i: int| 0 <= i < peers.len() ==> (#[trigger] peers_view(peers)[i]) == peers[i]@,
        inbox_view(msgs).len() == msgs.len(),
        forall|i: int| 0 <= i < msgs.len() ==> (#[trigger] inbox_view(msgs)[i]) == msgs[i]@,
        targets_view(targets).len() == targets.len(),
        forall|i: int|
            0 <= i < targets.len() ==> (#[trigger] targets_view(targets)[i]) == targets[i]@,
{
}

/// A packet is shown by its kind, with every field.
pub proof fn a_packet_is_shown(p: Packet)
    ensures
        p matches Packet::Probe { id, name, port } ==> p@ == (PacketView::Probe {
            id: id@,
            name: name@,
            port,
        }),
        p matches Packet::Here { id, name, port } ==> p@ == (PacketView::Here {
            id: id@,
            name: name@,
            port,
        }),
        p matches Packet::Bye { id } ==> p@ == (PacketView::Bye { id: id@ }),
{
}

/// A message on its way, a target and a brand are shown with every field.
pub proof fn small_things_are_shown(m: WireMsg, t: Target, b: Brand)
    ensures
        m@.from_id == m.from_id@,
        m@.from_name == m.from_name@,
        m@.body == m.body@,
        t@.name == t.name@,
        t@.addr == t.addr@,
        t@.port == t.port,
        b@.agent == b.agent@,
        b@.server == b.server@,
        b@.version == b.version@,
{
}

/// What may be missing is shown as missing or as what it is, and an outcome as success or
/// failure with what it brings.
pub proof fn what_may_be_missing_is_shown(
    text: Option<String>,
    packet: Option<Packet>,
    node: Option<Shared>,
    msg: Option<WireMsg>,
    outcome: Result<Json, String>,
    call: Result<ToolCall, String>,
)
    ensures
        text is Some <==> option_view(text) is Some,
        text is Some ==> option_view(text)->0 == text->0@,
        packet is Some <==> answer_view(packet) is Some,
        packet is Some ==> answer_view(packet)->0 == packet->0@,
        node is Some <==> node_view(node) is Some,
        node is Some ==> node_view(node)->0 == node->0@,
        msg is Some <==> message_view(msg) is Some,
        msg is Some ==> message_view(msg)->0 == msg->0@,
        outcome matches Ok(j) ==> outcome_view(outcome) == Ok::<JsonView, Seq<char>>(j@),
        outcome matches Err(why) ==> outcome_view(outcome) == Err::<JsonView, Seq<char>>(why@),
        call matches Ok(c) ==> asked_view(call) == Ok::<CallView, Seq<char>>(c@),
        call matches Err(why) ==> asked_view(call) == Err::<CallView, Seq<char>>(why@),
{
}

/// What a node that announces itself, or sends a message, does next is shown as it is.
pub proof fn network_actions_are_shown(a: AnnounceAction, s: SendAction, i: InboxAction)
    ensures
        a matches AnnounceAction::Probe(p) ==> a@ == AnnounceView::Probe(p@),
        a matches AnnounceAction::Announce(p) ==> a@ == AnnounceView::Announce(p@),
        a matches AnnounceAction::Sleep(ms) ==> a@ == AnnounceView::Sleep(ms),
        s matches SendAction::Connect(ms) ==> s@ == SendActionView::Connect(ms),
        s matches SendAction::Write(bytes) ==> s@ == SendActionView::Write(bytes@),
        s matches SendAction::AwaitAck(ms) ==> s@ == SendActionView::AwaitAck(ms),
        s matches SendAction::Finish(Ok(micros)) ==> s@ == SendActionView::Finish(Ok(micros)),
        s matches SendAction::Finish(Err(why)) ==> s@ == SendActionView::Finish(Err(why@)),
        i matches InboxAction::AwaitLine(ms) ==> i@ == InboxActionView::AwaitLine(ms),
        i matches InboxAction::Keep(msg) ==> i@ == InboxActionView::Keep(msg@),
        i matches InboxAction::Parse(text) ==> i@ == InboxActionView::Parse(text@),
        i matches InboxAction::Ack(bytes) ==> i@ == InboxActionView::Ack(bytes@),
        i is Close ==> i@ == InboxActionView::Close,
{
}

/// A call of a tool, and what comes next in it, is shown as it is.
pub proof fn calls_are_shown(c: ToolCall, s: SendStep, i: InboxStep, a: CallAction)
    ensures
        c is Whoami ==> c@ == CallView::Whoami,
        c matches ToolCall::Discover(ms) ==> c@ == CallView::Discover(ms),
        c is Peers ==> c@ == CallView::Peers,
        c is Send ==> c@ is Send,
        c matches ToolCall::Send { to, message } ==> c@->to == option_view(to) && c@->message
            == option_view(message),
        c matches ToolCall::Inbox(ms) ==> c@ == CallView::Inbox(ms),
        s matches SendStep::Fail(why) ==> s@ == SendStepView::Fail(why@),
        s matches SendStep::Scan(ms) ==> s@ == SendStepView::Scan(ms),
        s is Deliver ==> s@ is Deliver,
        s matches SendStep::Deliver { targets, message } ==> s@->targets == targets_view(targets@)
            && s@->message == message@,
        i matches InboxStep::Wait(nanos) ==> i@ == InboxStepView::Wait(nanos),
        i matches InboxStep::Done(j) ==> i@ == InboxStepView::Done(j@),
        a is FindIp ==> a@ == CallActionView::FindIp,
        a matches CallAction::Scan(ms) ==> a@ == CallActionView::Scan(ms),
        a is Deliver ==> a@ is Deliver,
        a matches CallAction::Deliver { targets, message } ==> a@->targets == targets_view(
            targets@,
        ) && a@->message == message@,
        a matches CallAction::Wait(nanos) ==> a@ == CallActionView::Wait(nanos),
        a matches CallAction::Finish(Ok(j)) ==> a@ == CallActionView::Finish(Ok(j@)),
        a matches CallAction::Finish(Err(why)) ==> a@ == CallActionView::Finish(Err(why@)),
{
}

/// What a request and a line come to is shown as it is.
pub proof fn requests_are_shown(d: Dispatch, s: Served)
    ensures
        d is Skip ==> d@ == DispatchView::Skip,
        d matches Dispatch::Answer(j) ==> d@ == DispatchView::Answer(j@),
        d is Call ==> d@ is Call,
        d matches Dispatch::Call { id, call } ==> d@->id == id@ && d@->call == call@,
        s is Skip ==> s@ == ServedView::Skip,
        s matches Served::Reply(bytes) ==> s@ == ServedView::Reply(bytes@),
        s is Call ==> s@ is Call,
        s matches Served::Call { id, call } ==> s@->id == id@ && s@->call == call@,
{
}

/// A list is shown item by item.
pub proof fn items_are_shown(items: Seq<Json>)
    ensures
        list_view(items).len() == items.len(),
        forall|i: int| 0 <= i < items.len() ==> (#[trigger] list_view(items)[i]) == items[i]@,
    decreases items.len(),
{
    if items.len() > 0 {
        let front = items.drop_last();
        items_are_shown(front);
        assert forall|i: int| 0 <= i < items.len() implies (#[trigger] list_view(items)[i])
            == items[i]@ by {
            if i < front.len() {
                assert(list_view(items)[i] == list_view(front)[i]);
                assert(front[i] == items[i]);
            }
        }
    }
}

/// Members in their order are shown pair by pair.
pub proof fn ordered_members_are_shown(pairs: Seq<(String, Json)>)
    ensures
        members_list(pairs).len() == pairs.len(),
        forall|i: int|
            0 <= i < pairs.len() ==> (#[trigger] members_list(pairs)[i]) == (
                pairs[i].0@,
                pairs[i].1@,
            ),
{
}

/// Whether pair `i` is the last one with a name.
pub open spec fn is_last(pairs: Seq<(String, Json)>, i: int, name: Seq<char>) -> bool {
    &&& 0 <= i < pairs.len()
    &&& pairs[i].0@ == name
    &&& forall|j: int| i < j < pairs.len() ==> (#[trigger] pairs[j]).0@ != name
}

/// An object is shown member by member: a name is there exactly where a pair has it, and has
/// the value of the last one that does.
pub proof fn members_are_shown(pairs: Seq<(String, Json)>, name: Seq<char>)
    ensures
        members_view(pairs).contains_key(name) ==> exists|i: int|
            #[trigger] is_last(pairs, i, name) && members_view(pairs)[name] == pairs[i].1@,
        forall|i: int|
            0 <= i < pairs.len() && (#[trigger] pairs[i]).0@ == name ==> members_view(
                pairs,
            ).contains_key(name),
    decreases pairs.len(),
{
    if pairs.len() > 0 {
        let front = pairs.drop_last();
        let n = pairs.len() - 1;
        members_are_shown(front, name);
        assert(members_view(pairs) == members_view(front).insert(pairs[n].0@, pairs[n].1@));
        if pairs[n].0@ == name {
            assert(is_last(pairs, n, name));
        } else {
            if members_view(pairs).contains_key(name) {
                let i = choose|i: int|
                    #[trigger] is_last(front, i, name) && members_view(front)[name]
                        == front[i].1@;
                assert forall|j: int| i < j < pairs.len() implies (#[trigger] pairs[j]).0@
                    != name by {
                    if j < n {
                        assert(front[j] == pairs[j]);
                    }
                }
                assert(front[i] == pairs[i]);
                assert(is_last(pairs, i, name));
            }
            assert forall|i: int|
                0 <= i < pairs.len() && (#[trigger] pairs[i]).0@ == name implies members_view(
                pairs,
            ).contains_key(name) by {
                assert(i < n);
                assert(front[i] == pairs[i]);
            }
        }
    }
}

/// A JSON value is shown by its kind, with all that it holds.
pub proof fn json_is_shown(j: Json)
    ensures
        j is Null ==> j@ == JsonView::Null,
        j matches Json::Bool(b) ==> j@ == JsonView::Bool(b),
        j matches Json::Uint(n) ==> j@ == JsonView::Int(n as int),
        j matches Json::Int(n) ==> j@ == JsonView::Int(n as int),
        j matches Json::Number(n) ==> (whole(n) matches Some(i) ==> j@ == JsonView::Int(i as int)),
        j matches Json::Number(n) ==> (whole(n) is None ==> j@ == JsonView::Real(n)),
        j matches Json::Text(s) ==> j@ == JsonView::Text(s@),
        j matches Json::List(v) ==> j@ == JsonView::List(list_view(v@)),
        j matches Json::Object(v) ==> j@ == JsonView::Object(members_view(v@)),
{
}

/// What is read off a JSON value: the member of an object that has the name, the characters of
/// a text, and the number of an integer that fits.
pub proof fn json_is_read(j: JsonView, name: Seq<char>)
    ensures
        j matches JsonView::Object(m) ==> (m.contains_key(name) ==> j.get(name) == Some(m[name])),
        j matches JsonView::Object(m) ==> (!m.contains_key(name) ==> j.get(name) is None),
        j !is Object ==> j.get(name) is None,
        j matches JsonView::Text(s) ==> j.as_str() == Some(s),
        j !is Text ==> j.as_str() is None,
        j matches JsonView::Int(n) ==> (j.as_u64() is Some <==> 0 <= n
            <= 0xffff_ffff_ffff_ffff),
        j matches JsonView::Int(n) ==> (j.as_u64() matches Some(u) ==> u == n),
        j !is Int ==> j.as_u64() is None,
        j.text(name) is Some <==> j.get(name) is Some && j.get(name)->0 is Text,
        j.text(name) is Some ==> j.get(name) == Some(JsonView::Text(j.text(name)->0)),
        j.uint(name) matches Some(u) ==> j.get(name) == Some(JsonView::Int(u as int)),
        j.uint(name) is None ==> !(j.get(name) matches Some(JsonView::Int(n)) && 0 <= n
            <= 0xffff_ffff_ffff_ffff),
{
}

}
