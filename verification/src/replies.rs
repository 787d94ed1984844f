//! What the tools reply and whom a message is for, member by member and peer by peer.
use crate::json::parsed;
use crate::json::JsonView;
use crate::laws::filter_none;
use crate::laws::filter_one;
use crate::laws::filter_two;
use crate::mcp::CallView;
use crate::notation::rounding_goes_to_the_nearest;
use crate::notation::times_are_told_in_tenths;
use crate::post::counts_and_lists;
use crate::state::option_view;
use crate::state::PeerView;
use crate::state::SharedView;
use crate::text::tenths;
use crate::text::text_le;
use crate::tools::called;
use crate::tools::delivered;
use crate::tools::deliveries_json;
use crate::tools::handles;
use crate::tools::identity;
use crate::tools::listed;
use crate::tools::lists_peers;
use crate::tools::nearest;
use crate::tools::peer_json;
use crate::tools::prefixed;
use crate::tools::reading;
use crate::tools::resolved;
use crate::tools::sending_to;
use crate::tools::undelivered;
use crate::tools::CallActionView;
use crate::tools::CallEvent;
use crate::tools::Delivery;
use crate::tools::InboxStepView;
use crate::tools::SendStepView;
use crate::tools::TargetView;
use vstd::prelude::*;

verus! {

/// Whether a value is an object with these members and no others: who a node is, where it is
/// reached, and where it listens for others.
pub open spec fn is_identity(
    j: JsonView,
    s: SharedView,
    port: u16,
    ip: Option<Seq<char>>,
) -> bool {
    j matches JsonView::Object(o) && o.dom() =~= set![
        "id"@,
        "name"@,
        "ip"@,
        "tcp_port"@,
        "discovery_port"@,
        "multicast_group"@,
    ] && o["id"@] == JsonView::Text(s.id) && o["name"@] == JsonView::Text(s.name) && (ip is Some
        ==> o["ip"@] == JsonView::Text(ip->0)) && (ip is None ==> o["ip"@] == JsonView::Null)
        && o["tcp_port"@] == JsonView::Int(s.tcp_port as int) && o["discovery_port"@]
        == JsonView::Int(port as int) && o["multicast_group"@] == JsonView::Text("239.92.108.99"@)
}

/// A node tells who it is.
pub proof fn a_node_tells_who_it_is(s: SharedView, port: u16, ip: Option<Seq<char>>)
    ensures
        is_identity(identity(s, port, ip), s, port, ip),
{
    reveal_strlit("id");
    reveal_strlit("name");
    reveal_strlit("ip");
    reveal_strlit("tcp_port");
    reveal_strlit("discovery_port");
    reveal_strlit("multicast_group");
    assert("id"@.len() == 2 && "ip"@.len() == 2 && "id"@[1] == 'd' && "ip"@[1] == 'p');
    assert("name"@.len() == 4 && "tcp_port"@.len() == 8);
    assert("discovery_port"@.len() == 14 && "multicast_group"@.len() == 15);
}

/// Whether a value is an object with these members and no others: a peer as it is known, with
/// these two times.
pub open spec fn tells_peer(j: JsonView, p: PeerView, rtt: JsonView, ago: JsonView) -> bool {
    j matches JsonView::Object(o) && o.dom() =~= set![
        "id"@,
        "name"@,
        "ip"@,
        "tcp_port"@,
        "rtt_ms"@,
        "last_seen_secs_ago"@,
    ] && o["id"@] == JsonView::Text(p.id) && o["name"@] == JsonView::Text(p.name) && o["ip"@]
        == JsonView::Text(p.addr) && o["tcp_port"@] == JsonView::Int(p.tcp_port as int)
        && o["rtt_ms"@] == rtt && o["last_seen_secs_ago"@] == ago
}

/// A peer is told as it is known.
pub proof fn a_peer_is_told_whole(p: PeerView, rtt: JsonView, ago: JsonView)
    ensures
        tells_peer(listed(p, rtt, ago), p, rtt, ago),
{
    reveal_strlit("id");
    reveal_strlit("name");
    reveal_strlit("ip");
    reveal_strlit("tcp_port");
    reveal_strlit("rtt_ms");
    reveal_strlit("last_seen_secs_ago");
    assert("id"@.len() == 2 && "ip"@.len() == 2 && "id"@[1] == 'd' && "ip"@[1] == 'p');
    assert("name"@.len() == 4 && "tcp_port"@.len() == 8);
    assert("rtt_ms"@.len() == 6 && "last_seen_secs_ago"@.len() == 18);
}

/// A peer is told with its round-trip time in milliseconds and the time since it was last heard
/// of in seconds, each as the decimal fraction with the nearest number of tenths; with no
/// round-trip time where none is known.
pub proof fn a_peer_is_told_with_its_times(
    p: PeerView,
    now: u64,
    k: nat,
    rtt: JsonView,
    l: nat,
    ago: JsonView,
)
    requires
        p.rtt_micros is None ==> rtt == JsonView::Null,
        p.rtt_micros matches Some(micros) ==> 200 * k <= 2 * micros + 100 && 2 * micros < 200 * k
            + 100 && parsed(tenths(k)) == Some(rtt),
        ({
            let gone: int = if p.last_seen <= now {
                now - p.last_seen
            } else {
                0
            };
            200_000_000 * l <= 2 * gone + 100_000_000 && 2 * gone < 200_000_000 * l + 100_000_000
        }),
        parsed(tenths(l)) == Some(ago),
    ensures
        tells_peer(peer_json(p, now), p, rtt, ago),
{
    a_peer_is_told_whole(p, rtt, ago);
    if p.rtt_micros is Some {
        times_are_told_in_tenths(p.rtt_micros->0, k, rtt);
    }
    let gone = crate::state::elapsed(p.last_seen, now) as nat;
    rounding_goes_to_the_nearest(gone, 100_000_000);
    assert(nearest(gone, 100_000_000) == l);
}

/// The list of peers has one entry for each peer, as often as it is in the table, in the order
/// of their names, and counts them.
pub proof fn every_peer_is_listed(j: JsonView, peers: Seq<PeerView>, now: u64) -> (order: Seq<
    PeerView,
>)
    requires
        lists_peers(j, peers, now),
    ensures
        order.to_multiset() == peers.to_multiset(),
        order.len() == peers.len(),
        forall|a: int, b: int|
            0 <= a <= b < order.len() ==> text_le(
                (#[trigger] order[a]).name,
                (#[trigger] order[b]).name,
            ),
        counts_and_lists(j, "peers"@, order.map_values(|p: PeerView| peer_json(p, now))),
{
    reveal_strlit("count");
    reveal_strlit("peers");
    assert("count"@[0] == 'c' && "peers"@[0] == 'p');
    let order = choose|order: Seq<PeerView>| #[trigger]
        crate::tools::by_name(order) && order.to_multiset() == peers.to_multiset() && j
            == crate::tools::report(
            "peers"@,
            order.map_values(|p: PeerView| peer_json(p, now)),
        );
    order.to_multiset_ensures();
    peers.to_multiset_ensures();
    order
}

/// Whether a target is a peer, by its name, at its address and port.
pub open spec fn is_target(t: TargetView, p: PeerView) -> bool {
    t.name == p.name && t.addr == p.addr && t.port == p.tcp_port
}

/// The first of those to be kept is the first that is kept.
proof fn filter_first(peers: Seq<PeerView>, keep: spec_fn(PeerView) -> bool, i: int)
    requires
        0 <= i < peers.len(),
        keep(peers[i]),
        forall|k: int| 0 <= k < i ==> !keep(#[trigger] peers[k]),
    ensures
        peers.filter(keep).len() > 0,
        peers.filter(keep)[0] == peers[i],
    decreases peers.len(),
{
    reveal(Seq::filter);
    let front = peers.drop_last();
    assert forall|k: int| 0 <= k < front.len() implies #[trigger] front[k] == peers[k] by {}
    if i == peers.len() - 1 {
        filter_none(front, keep);
    } else {
        filter_first(front, keep, i);
    }
}

/// A message to all is for every peer, each once and in the order of the table.
pub proof fn all_means_every_peer(peers: Seq<PeerView>, to: Seq<char>)
    requires
        to == "all"@ || to == "*"@,
    ensures
        resolved(peers, to).len() == peers.len(),
        forall|i: int|
            0 <= i < peers.len() ==> is_target(#[trigger] resolved(peers, to)[i], peers[i]),
{
}

/// Any other message is for one peer: the first whose id or whole name is told; else the only
/// one whose name starts so; else for nobody.
pub proof fn a_message_is_for_one_peer(peers: Seq<PeerView>, to: Seq<char>, i: int)
    requires
        to != "all"@,
        to != "*"@,
    ensures
        0 <= i < peers.len() && (peers[i].id == to || peers[i].name == to) && (forall|k: int|
            0 <= k < i ==> (#[trigger] peers[k]).id != to && peers[k].name != to) ==> resolved(
            peers,
            to,
        ).len() == 1 && is_target(resolved(peers, to)[0], peers[i]),
        (forall|k: int| 0 <= k < peers.len() ==> (#[trigger] peers[k]).id != to && peers[k].name
            != to) ==> ({
            let starts = |k: int| 0 <= k < peers.len() && to.is_prefix_of(peers[k].name);
            &&& starts(i) && (forall|k: int| k != i ==> !(#[trigger] starts(k))) ==> resolved(
                peers,
                to,
            ).len() == 1 && is_target(resolved(peers, to)[0], peers[i])
            &&& (forall|k: int| !(#[trigger] starts(k))) ==> resolved(peers, to).len() == 0
            &&& starts(i) && (exists|k: int| k != i && #[trigger] starts(k)) ==> resolved(
                peers,
                to,
            ).len() == 0
        }),
{
    let whole = |p: PeerView| p.id == to || p.name == to;
    let start = |p: PeerView| to.is_prefix_of(p.name);
    let starts = |k: int| 0 <= k < peers.len() && to.is_prefix_of(peers[k].name);
    if 0 <= i < peers.len() && whole(peers[i]) && (forall|k: int|
        0 <= k < i ==> (#[trigger] peers[k]).id != to && peers[k].name != to) {
        assert forall|k: int| 0 <= k < i implies !whole(#[trigger] peers[k]) by {}
        filter_first(peers, whole, i);
        assert(called(peers, to)[0] == peers[i]);
    }
    if forall|k: int| 0 <= k < peers.len() ==> (#[trigger] peers[k]).id != to && peers[k].name
        != to {
        assert forall|k: int| 0 <= k < peers.len() implies !whole(#[trigger] peers[k]) by {}
        filter_none(peers, whole);
        assert(called(peers, to).len() == 0);
        if starts(i) && (forall|k: int| k != i ==> !(#[trigger] starts(k))) {
            assert forall|k: int| 0 <= k < peers.len() && k != i implies !start(
                #[trigger] peers[k],
            ) by {
                assert(!starts(k));
            }
            filter_one(peers, start, i);
            assert(prefixed(peers, to) == seq![peers[i]]);
        }
        if forall|k: int| !(#[trigger] starts(k)) {
            assert forall|k: int| 0 <= k < peers.len() implies !start(#[trigger] peers[k]) by {
                assert(!starts(k));
            }
            filter_none(peers, start);
            assert(prefixed(peers, to).len() == 0);
        }
        if starts(i) && (exists|k: int| k != i && #[trigger] starts(k)) {
            let k = choose|k: int| k != i && #[trigger] starts(k);
            if k < i {
                filter_two(peers, start, k, i);
            } else {
                filter_two(peers, start, i, k);
            }
            assert(prefixed(peers, to).len() >= 2);
        }
    }
}

/// A message is delivered to exactly those whom it is for, and whole. Where that is nobody, the
/// LAN is scanned for 350 milliseconds first; after that it fails, and says whom it was for.
/// Without somebody whom it is for, or without a message, it fails and says so.
pub proof fn a_message_is_sent_to_those_it_is_for(
    peers: Seq<PeerView>,
    to: Seq<char>,
    message: Seq<char>,
    missing: Option<Seq<char>>,
    scanned: bool,
)
    ensures
        sending_to(peers, None, missing, scanned) == SendStepView::Fail(
            "missing required argument 'to'"@,
        ),
        sending_to(peers, Some(to), None, scanned) == SendStepView::Fail(
            "missing required argument 'message'"@,
        ),
        ({
            let step = sending_to(peers, Some(to), Some(message), scanned);
            let found = resolved(peers, to).len() > 0;
            &&& found ==> step is Deliver && step->targets == resolved(peers, to) && step->message
                == message
            &&& !found && !scanned ==> step == SendStepView::Scan(350)
            &&& !found && scanned ==> step == SendStepView::Fail(
                "no peer matching '"@ + to + "' found on the LAN (try lan_discover)"@,
            )
        }),
{
}

/// A message to all is delivered to every peer that is known.
pub proof fn a_message_to_all_is_sent_to_every_peer(
    peers: Seq<PeerView>,
    to: Seq<char>,
    message: Seq<char>,
    scanned: bool,
)
    requires
        to == "all"@ || to == "*"@,
        peers.len() > 0,
    ensures
        ({
            let step = sending_to(peers, Some(to), Some(message), scanned);
            &&& step is Deliver
            &&& step->message == message
            &&& step->targets.len() == peers.len()
            &&& forall|i: int|
                0 <= i < peers.len() ==> is_target(#[trigger] step->targets[i], peers[i])
        }),
{
    all_means_every_peer(peers, to);
}

/// Whether a value is an object with these members and no others: how a delivery went, to which
/// peer, and the round-trip time.
pub open spec fn tells_success(j: JsonView, peer: Seq<char>, rtt: JsonView) -> bool {
    j matches JsonView::Object(o) && o.dom() =~= set!["peer"@, "delivered"@, "rtt_ms"@]
        && o["peer"@] == JsonView::Text(peer) && o["delivered"@] == JsonView::Bool(true)
        && o["rtt_ms"@] == rtt
}

/// Whether a value is an object with these members and no others: that a delivery failed, to
/// which peer, and why.
pub open spec fn tells_failure(j: JsonView, peer: Seq<char>, why: Seq<char>) -> bool {
    j matches JsonView::Object(o) && o.dom() =~= set!["peer"@, "delivered"@, "error"@]
        && o["peer"@] == JsonView::Text(peer) && o["delivered"@] == JsonView::Bool(false)
        && o["error"@] == JsonView::Text(why)
}

/// How a delivery went is told whole.
pub proof fn a_delivery_is_told_whole(peer: Seq<char>, rtt: JsonView, why: Seq<char>)
    ensures
        tells_success(delivered(peer, rtt), peer, rtt),
        tells_failure(undelivered(peer, why), peer, why),
{
    reveal_strlit("peer");
    reveal_strlit("delivered");
    reveal_strlit("rtt_ms");
    reveal_strlit("error");
    assert("peer"@.len() == 4 && "delivered"@.len() == 9);
    assert("rtt_ms"@.len() == 6 && "error"@.len() == 5);
}

/// Every delivery is reported, in turn: one that succeeded with its round-trip time in
/// milliseconds, as the decimal fraction with the nearest number of tenths, and one that failed
/// with the reason.
pub proof fn every_delivery_is_reported(deliveries: Seq<Delivery>) -> (entries: Seq<JsonView>)
    ensures
        deliveries_json(deliveries) matches JsonView::Object(o) && o.dom() =~= set!["results"@]
            && o["results"@] == JsonView::List(entries),
        entries.len() == deliveries.len(),
        forall|i: int, k: nat, rtt: JsonView|
            0 <= i < deliveries.len() && deliveries[i].outcome is Ok && 200 * k <= 2
                * deliveries[i].outcome->Ok_0 + 100 && 2 * deliveries[i].outcome->Ok_0 < 200 * k
                + 100 && #[trigger] parsed(tenths(k)) == Some(rtt) ==> #[trigger] tells_success(
                entries[i],
                deliveries[i].peer@,
                rtt,
            ),
        forall|i: int|
            0 <= i < deliveries.len() && deliveries[i].outcome is Err ==> tells_failure(
                #[trigger] entries[i],
                deliveries[i].peer@,
                deliveries[i].outcome->Err_0@,
            ),
{
    let entries = deliveries_json(deliveries)->Object_0["results"@]->List_0;
    assert forall|i: int, k: nat, rtt: JsonView|
        0 <= i < deliveries.len() && deliveries[i].outcome is Ok && 200 * k <= 2
            * deliveries[i].outcome->Ok_0 + 100 && 2 * deliveries[i].outcome->Ok_0 < 200 * k + 100
            && #[trigger] parsed(tenths(k)) == Some(rtt) implies #[trigger] tells_success(
        entries[i],
        deliveries[i].peer@,
        rtt,
    ) by {
        times_are_told_in_tenths(deliveries[i].outcome->Ok_0, k, rtt);
        a_delivery_is_told_whole(deliveries[i].peer@, rtt, Seq::empty());
    }
    assert forall|i: int|
        0 <= i < deliveries.len() && deliveries[i].outcome is Err implies tells_failure(
        #[trigger] entries[i],
        deliveries[i].peer@,
        deliveries[i].outcome->Err_0@,
    ) by {
        a_delivery_is_told_whole(
            deliveries[i].peer@,
            JsonView::Null,
            deliveries[i].outcome->Err_0@,
        );
    }
    entries
}

/// `lan_whoami` has the node's address looked up and then tells who it is.
pub proof fn whoami_tells_who(
    before: SharedView,
    event: CallEvent,
    port: u16,
    started: u64,
    now: u64,
    after: SharedView,
    action: CallActionView,
)
    requires
        handles(before, CallView::Whoami, event, port, started, now, after, action),
    ensures
        after == before,
        event matches CallEvent::FoundIp(ip) ==> (action matches CallActionView::Finish(Ok(j))
            && is_identity(j, before, port, option_view(ip))),
        event !is FoundIp ==> action == CallActionView::FindIp,
{
    if event is FoundIp {
        a_node_tells_who_it_is(before, port, option_view(event->FoundIp_0));
    }
}

/// `lan_discover` has the LAN scanned for the time asked for and then lists the peers, as
/// `lan_peers` does at once.
pub proof fn discover_and_peers_list(
    before: SharedView,
    wait_ms: u64,
    event: CallEvent,
    port: u16,
    started: u64,
    now: u64,
    after: SharedView,
    action: CallActionView,
)
    ensures
        handles(before, CallView::Discover(wait_ms), event, port, started, now, after, action)
            && event is Scanned ==> after == before && (action matches CallActionView::Finish(
            Ok(j),
        ) && lists_peers(j, before.peers, now)),
        handles(before, CallView::Discover(wait_ms), event, port, started, now, after, action)
            && event !is Scanned ==> after == before && action == CallActionView::Scan(wait_ms),
        handles(before, CallView::Peers, event, port, started, now, after, action) ==> after
            == before && (action matches CallActionView::Finish(Ok(j)) && lists_peers(
            j,
            before.peers,
            now,
        )),
{
}

/// `lan_send` does what sending the message asks for, before a scan or after it, and reports
/// the deliveries when they are made.
pub proof fn send_delivers_and_reports(
    before: SharedView,
    to: Option<Seq<char>>,
    message: Option<Seq<char>>,
    event: CallEvent,
    port: u16,
    started: u64,
    now: u64,
    after: SharedView,
    action: CallActionView,
)
    requires
        handles(
            before,
            CallView::Send { to, message },
            event,
            port,
            started,
            now,
            after,
            action,
        ),
    ensures
        after == before,
        event matches CallEvent::Sent(deliveries) ==> action == CallActionView::Finish(
            Ok(deliveries_json(deliveries@)),
        ),
        event !is Sent ==> ({
            let step = sending_to(before.peers, to, message, event is Scanned);
            &&& step matches SendStepView::Fail(why) ==> action == CallActionView::Finish(Err(why))
            &&& step matches SendStepView::Scan(ms) ==> action == CallActionView::Scan(ms)
            &&& step is Deliver ==> action is Deliver && action->targets == step->targets
                && action->message == step->message
        }),
{
}

/// `lan_inbox` waits for as long as reading asks for, and replies with what it hands out.
pub proof fn inbox_waits_and_replies(
    before: SharedView,
    wait_ms: u64,
    event: CallEvent,
    port: u16,
    started: u64,
    now: u64,
    after: SharedView,
    action: CallActionView,
)
    requires
        handles(before, CallView::Inbox(wait_ms), event, port, started, now, after, action),
    ensures
        after == reading(before, wait_ms, started, now).0,
        reading(before, wait_ms, started, now).1 matches InboxStepView::Wait(nanos) ==> action
            == CallActionView::Wait(nanos),
        reading(before, wait_ms, started, now).1 matches InboxStepView::Done(j) ==> action
            == CallActionView::Finish(Ok(j)),
{
}

}
