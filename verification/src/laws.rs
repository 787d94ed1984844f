//! What holds of the library as a whole: of several functions together, or of every state
//! that a node can reach.
use crate::json::JsonView;
use crate::mail::accepting;
use crate::mail::carries;
use crate::mail::comes_of;
use crate::mail::sending;
use crate::mail::stored;
use crate::mail::wire_json;
use crate::mail::wire_msg;
use crate::mail::InboxActionView;
use crate::mail::InboxEvent;
use crate::mail::LineRead;
use crate::mail::SendActionView;
use crate::mail::SendEvent;
use crate::mail::WireMsg;
use crate::mcp::asked;
use crate::mcp::dispatched;
use crate::mcp::error_response;
use crate::mcp::request_id;
use crate::mcp::response;
use crate::mcp::tools;
use crate::mcp::BrandView;
use crate::mcp::CallView;
use crate::mcp::DispatchView;
use crate::net::announced;
use crate::net::answer_time;
use crate::net::heard;
use crate::net::heard_shape;
use crate::net::packet_json;
use crate::net::received;
use crate::net::updated;
use crate::net::AnnounceEvent;
use crate::net::PacketView;
use crate::net::PEER_STALE_AFTER;
use crate::net::PROBE_ANSWERED_WITHIN;
use crate::state::elapsed;
use crate::state::fresh;
use crate::state::InboxView;
use crate::state::PeerView;
use crate::state::SharedView;
use crate::text::decimal;
use crate::text::is_hex_digit;
use crate::text::port;
use crate::tools::called;
use crate::tools::delivered;
use crate::tools::deliveries_json;
use crate::tools::handles;
use crate::tools::messages_json;
use crate::tools::micros_json;
use crate::tools::nearest;
use crate::tools::prefixed;
use crate::tools::reading;
use crate::tools::resolved;
use crate::tools::sending_to;
use crate::tools::target;
use crate::tools::to_all;
use crate::tools::undelivered;
use crate::tools::CallActionView;
use crate::tools::CallEvent;
use crate::tools::Delivery;
use crate::tools::InboxStepView;
use crate::tools::SendStepView;
use crate::tools::TargetView;
use crate::tools::INBOX_WAIT_MAX;
use vstd::prelude::*;

verus! {

// ---------------------------------------------------------------------------
// The peer table.
// ---------------------------------------------------------------------------
/// Whether no two peers have the same id.
spec fn distinct(peers: Seq<PeerView>) -> bool {
    forall|i: int, j: int|
        0 <= i < j < peers.len() ==> (#[trigger] peers[i]).id != (#[trigger] peers[j]).id
}

/// Leaving peers out keeps what holds of any two of them.
proof fn filter_keeps(peers: Seq<PeerView>, keep: spec_fn(PeerView) -> bool)
    ensures
        distinct(peers) ==> distinct(peers.filter(keep)),
        forall|i: int|
            0 <= i < peers.filter(keep).len() ==> keep(#[trigger] peers.filter(keep)[i])
                && peers.contains(peers.filter(keep)[i]),
        forall|i: int|
            0 <= i < peers.len() && keep(peers[i]) ==> peers.filter(keep).contains(
                #[trigger] peers[i],
            ),
    decreases peers.len(),
{
    reveal(Seq::filter);
    let out = peers.filter(keep);
    if peers.len() > 0 {
        let front = peers.drop_last();
        filter_keeps(front, keep);
        let kept = front.filter(keep);
        assert forall|i: int| 0 <= i < out.len() implies keep(#[trigger] out[i]) && peers.contains(
            out[i],
        ) by {
            if i < kept.len() {
                assert(out[i] == kept[i]);
                assert(front.contains(kept[i]));
                let k = choose|k: int| 0 <= k < front.len() && front[k] == kept[i];
                assert(peers[k] == out[i]);
            } else {
                assert(out[i] == peers[peers.len() - 1]);
            }
        }
        assert forall|i: int| 0 <= i < peers.len() && keep(peers[i]) implies out.contains(
            #[trigger] peers[i],
        ) by {
            if i < front.len() {
                assert(front[i] == peers[i]);
                assert(kept.contains(front[i]));
                let k = choose|k: int| 0 <= k < kept.len() && kept[k] == front[i];
                assert(out[k] == peers[i]);
            } else {
                assert(out[out.len() - 1] == peers[i]);
            }
        }
        if distinct(peers) {
            assert forall|i: int, j: int| 0 <= i < j < front.len() implies (
            #[trigger] front[i]).id != (#[trigger] front[j]).id by {
                assert(front[i] == peers[i] && front[j] == peers[j]);
            }
            assert forall|i: int, j: int| 0 <= i < j < out.len() implies (#[trigger] out[i]).id != (
            #[trigger] out[j]).id by {
                if j < kept.len() {
                    assert(out[i] == kept[i] && out[j] == kept[j]);
                } else {
                    assert(out[i] == kept[i]);
                    assert(front.contains(kept[i]));
                    let k = choose|k: int| 0 <= k < front.len() && front[k] == kept[i];
                    assert(peers[k] == out[i]);
                    assert(peers[peers.len() - 1] == out[j]);
                }
            }
        }
    }
}

/// A node that has just come up knows nobody, and has an id of eight hexadecimal digits.
pub proof fn fresh_node(
    tcp_port: u16,
    nanos: u64,
    pid: u32,
    chosen: Option<Seq<char>>,
    host: Seq<char>,
)
    ensures
        fresh(tcp_port, nanos, pid, chosen, host).wf(),
        fresh(tcp_port, nanos, pid, chosen, host).id.len() == 8,
        forall|i: int|
            0 <= i < 8 ==> #[trigger] is_hex_digit(
                fresh(tcp_port, nanos, pid, chosen, host).id[i],
            ),
{
    let seed = nanos ^ ((pid as u64) << 32u64);
    let mixed = (seed * 0x9E37_79B9_7F4A_7C15) % 0x1_0000_0000_0000_0000;
    crate::text::hex_len((mixed / 0x1_0000_0000) as nat, 8);
}

/// Whatever packet comes in, no two peers of a node have the same id, and none has the
/// node's own.
pub proof fn packets_keep_the_table(s: SharedView, p: PacketView, src: Seq<char>, now: u64)
    requires
        s.wf(),
    ensures
        received(s, p, src, now).0.wf(),
{
    let after = received(s, p, src, now).0;
    match p {
        PacketView::Bye { id } => {
            let keep = |q: PeerView| q.id != id;
            filter_keeps(s.peers, keep);
            assert(distinct(s.peers));
            assert forall|i: int| 0 <= i < after.peers.len() implies (
            #[trigger] after.peers[i]).id != after.id by {
                assert(s.peers.contains(after.peers[i]));
            }
        },
        _ => {
            if after.peers != s.peers {
                let news = match p {
                    PacketView::Probe { id, name, port } => PeerView {
                        id,
                        name,
                        addr: src,
                        tcp_port: port,
                        last_seen: now,
                        rtt_micros: None,
                    },
                    PacketView::Here { id, name, port } => PeerView {
                        id,
                        name,
                        addr: src,
                        tcp_port: port,
                        last_seen: now,
                        rtt_micros: answer_time(s.last_probe_at, now),
                    },
                    PacketView::Bye { id } => arbitrary(),
                };
                let i = heard_shape(s.peers, news);
            }
        },
    }
}

/// Announcing keeps the peer table as [`packets_keep_the_table`] says.
pub proof fn announcing_keeps_the_table(s: SharedView, event: AnnounceEvent, now: u64)
    requires
        s.wf(),
    ensures
        announced(s, event, now).0.wf(),
{
    let after = announced(s, event, now).0;
    if event is Announced {
        let keep = |q: PeerView| elapsed(q.last_seen, now) < PEER_STALE_AFTER;
        filter_keeps(s.peers, keep);
        assert(distinct(s.peers));
        assert forall|i: int| 0 <= i < after.peers.len() implies (
        #[trigger] after.peers[i]).id != after.id by {
            assert(s.peers.contains(after.peers[i]));
        }
    }
}

/// Messages, whether they come or are read, leave the peer table alone.
pub proof fn messages_leave_the_table(
    s: SharedView,
    event: InboxEvent,
    addr: Seq<char>,
    wait_ms: u64,
    started: u64,
    now: u64,
)
    ensures
        accepting(s, event, addr).0.peers == s.peers,
        reading(s, wait_ms, started, now).0.peers == s.peers,
        s.wf() ==> accepting(s, event, addr).0.wf() && reading(s, wait_ms, started, now).0.wf(),
{
}

/// Whatever happens to a node, it stays who it is: its id, its name and its port never
/// change.
pub proof fn a_node_stays_itself(
    s: SharedView,
    p: PacketView,
    src: Seq<char>,
    now: u64,
    announcing: AnnounceEvent,
    mail: InboxEvent,
)
    ensures
        same_node(received(s, p, src, now).0, s),
        same_node(announced(s, announcing, now).0, s),
        same_node(accepting(s, mail, src).0, s),
{
}

/// Whether two states are those of one node.
pub open spec fn same_node(a: SharedView, b: SharedView) -> bool {
    a.id == b.id && a.name == b.name && a.tcp_port == b.tcp_port
}

/// Calling a tool changes nothing of a node but its inbox, and that only where the tool
/// reads it.
pub proof fn calls_change_the_inbox_at_most(
    before: SharedView,
    call: CallView,
    event: CallEvent,
    port: u16,
    started: u64,
    now: u64,
    after: SharedView,
    action: CallActionView,
)
    requires
        handles(before, call, event, port, started, now, after, action),
    ensures
        after == (SharedView { inbox: after.inbox, ..before }),
        call !is Inbox ==> after == before,
        before.wf() ==> after.wf(),
{
}

/// Whether an event is what comes of doing an action for a call of a tool.
pub open spec fn answers(event: CallEvent, action: CallActionView) -> bool {
    match action {
        CallActionView::FindIp => event is FoundIp,
        CallActionView::Scan(_) => event is Scanned,
        CallActionView::Deliver { .. } => event is Sent,
        CallActionView::Wait(_) => event is Waited,
        CallActionView::Finish(_) => false,
    }
}

/// How many actions are left at most in a call that does this one, where no wait is cut
/// short.
pub open spec fn left_to_do(action: CallActionView) -> nat {
    match action {
        CallActionView::Scan(_) => 2,
        CallActionView::Finish(_) => 0,
        _ => 1,
    }
}

/// A call of a tool comes to an end: whatever comes of an action, and whatever else has
/// happened to the node meanwhile, fewer actions are left after it. Only a wait that was cut
/// short, with no message there, goes on, for the time that is left of it.
pub proof fn calls_come_to_an_end(
    before: SharedView,
    call: CallView,
    event: CallEvent,
    port: u16,
    started: u64,
    now: u64,
    after: SharedView,
    action: CallActionView,
    meanwhile: SharedView,
    reply: CallEvent,
    later: u64,
    afterwards: SharedView,
    next: CallActionView,
)
    requires
        started <= now <= later,
        handles(before, call, event, port, started, now, after, action),
        answers(reply, action),
        handles(meanwhile, call, reply, port, started, later, afterwards, next),
    ensures
        left_to_do(next) < left_to_do(action) || (next matches CallActionView::Wait(rest)
            && action matches CallActionView::Wait(nanos) && rest == nanos - (later - now)
            && meanwhile.inbox.len() == 0),
        action matches CallActionView::Wait(nanos) ==> later - now >= nanos ==> next is Finish,
{
}

/// The entry of a peer after the packet that made it what it is comes once more: it was last
/// heard of when the second copy came, and where that is an answer to a probe, the round-trip
/// time is that of the second copy.
pub open spec fn refreshed(
    q: PeerView,
    p: PacketView,
    last_probe_at: Option<u64>,
    later: u64,
) -> PeerView {
    PeerView {
        last_seen: later,
        rtt_micros: if p is Here && answer_time(last_probe_at, later) is Some {
            answer_time(last_probe_at, later)
        } else {
            q.rtt_micros
        },
        ..q
    }
}

/// Whose packet it is.
pub open spec fn sender_id(p: PacketView) -> Seq<char> {
    match p {
        PacketView::Probe { id, .. } => id,
        PacketView::Here { id, .. } => id,
        PacketView::Bye { id } => id,
    }
}

/// A packet that comes twice, as through the multicast group and the broadcast, does no more
/// than one that comes once: the table has the same peers with the same names and addresses
/// in the same places, and only the times of the sender's entry are those of the second copy.
/// For a probe and a farewell the round-trip time stays too; for copies that come at once
/// everything does.
pub proof fn duplicates_are_harmless(
    s: SharedView,
    p: PacketView,
    src: Seq<char>,
    now: u64,
    later: u64,
)
    requires
        s.wf(),
    ensures
        ({
            let once = received(s, p, src, now).0;
            let twice = received(once, p, src, later).0;
            &&& twice == (SharedView { peers: twice.peers, ..once })
            &&& twice.peers.len() == once.peers.len()
            &&& forall|i: int|
                0 <= i < once.peers.len() ==> (#[trigger] twice.peers[i]) == if once.peers[i].id
                    == sender_id(p) {
                    refreshed(once.peers[i], p, s.last_probe_at, later)
                } else {
                    once.peers[i]
                }
            &&& now == later ==> twice == once
        }),
{
    let once = received(s, p, src, now).0;
    let twice = received(once, p, src, later).0;
    packets_keep_the_table(s, p, src, now);
    match p {
        PacketView::Bye { id } => {
            let keep = |q: PeerView| q.id != id;
            filter_keeps(s.peers, keep);
            filter_all(once.peers, keep);
        },
        PacketView::Probe { id, name, port } => {
            if id != s.id {
                let news = PeerView {
                    id,
                    name,
                    addr: src,
                    tcp_port: port,
                    last_seen: now,
                    rtt_micros: None,
                };
                heard_again(s.peers, news, PeerView { last_seen: later, ..news });
            }
        },
        PacketView::Here { id, name, port } => {
            if id != s.id {
                let news = PeerView {
                    id,
                    name,
                    addr: src,
                    tcp_port: port,
                    last_seen: now,
                    rtt_micros: answer_time(s.last_probe_at, now),
                };
                let again = PeerView {
                    last_seen: later,
                    rtt_micros: answer_time(s.last_probe_at, later),
                    ..news
                };
                heard_again(s.peers, news, again);
            }
        },
    }
    if now == later {
        assert(twice.peers =~= once.peers);
    }
}

/// Nothing is left out where everything is to be kept.
proof fn filter_all(peers: Seq<PeerView>, keep: spec_fn(PeerView) -> bool)
    requires
        forall|i: int| 0 <= i < peers.len() ==> keep(#[trigger] peers[i]),
    ensures
        peers.filter(keep) == peers,
    decreases peers.len(),
{
    reveal(Seq::filter);
    if peers.len() > 0 {
        let front = peers.drop_last();
        assert forall|i: int| 0 <= i < front.len() implies keep(#[trigger] front[i]) by {
            assert(front[i] == peers[i]);
        }
        filter_all(front, keep);
        assert(keep(peers[peers.len() - 1]));
        assert(peers.filter(keep) =~= peers);
    } else {
        assert(peers.filter(keep) =~= peers);
    }
}

/// News of a peer leave an entry in the table, and more news of it change that entry and no
/// other.
proof fn heard_again(peers: Seq<PeerView>, news: PeerView, again: PeerView) -> (i: int)
    requires
        again.id == news.id,
    ensures
        0 <= i < heard(peers, news).len(),
        heard(peers, news)[i].id == news.id,
        heard(peers, news)[i].name == news.name,
        heard(peers, news)[i].addr == news.addr,
        heard(peers, news)[i].tcp_port == news.tcp_port,
        heard(peers, news)[i].last_seen == news.last_seen,
        news.rtt_micros is Some ==> heard(peers, news)[i].rtt_micros == news.rtt_micros,
        heard(heard(peers, news), again) == heard(peers, news).update(
            i,
            updated(heard(peers, news)[i], again),
        ),
{
    let once = heard(peers, news);
    let i = heard_shape(peers, news);
    let j = heard_shape(once, again);
    assert(once[i].id == news.id);
    if j < i {
        assert(once[j] == peers[j]);
    }
    assert(j == i);
    i
}

/// A node passes over what it sent itself: neither its probe nor its announcement nor its
/// farewell changes it or has it answer.
pub proof fn passes_over_its_own(s: SharedView, src: Seq<char>, now: u64)
    requires
        s.wf(),
    ensures
        received(s, s.probe(), src, now) == (s, None::<PacketView>),
        received(s, s.here(), src, now) == (s, None::<PacketView>),
        received(s, s.bye(), src, now) == (s, None::<PacketView>),
{
    let keep = |q: PeerView| q.id != s.id;
    filter_all(s.peers, keep);
}

/// No two packets look the same on the wire.
pub proof fn packets_differ_on_the_wire(p: PacketView, q: PacketView)
    requires
        packet_json(p) == packet_json(q),
    ensures
        p == q,
{
    crate::net::member_names_differ();
    reveal_strlit("probe");
    reveal_strlit("here");
    reveal_strlit("bye");
    assert("probe"@.len() == 5 && "here"@.len() == 4 && "bye"@.len() == 3);
    let a = packet_json(p);
    let b = packet_json(q);
    assert(a.text("t"@) == b.text("t"@));
    assert(a.text("id"@) == b.text("id"@));
    assert(a.text("name"@) == b.text("name"@));
    assert(a.get("port"@) == b.get("port"@));
}

/// Discovery works both ways at once: where one node's probe reaches another, that one
/// knows it from then on and answers at once; and where the answer comes back in time, the
/// first one knows the other, with the time from probe to answer in microseconds.
pub proof fn a_probe_makes_two_nodes_known(
    a: SharedView,
    b: SharedView,
    sent: u64,
    a_addr: Seq<char>,
    b_addr: Seq<char>,
    b_now: u64,
    now: u64,
)
    requires
        a.id != b.id,
        elapsed(sent, now) < PROBE_ANSWERED_WITHIN,
    ensures
        received(b, a.probe(), a_addr, b_now).1 == Some(b.here()),
        exists|i: int|
            0 <= i < received(b, a.probe(), a_addr, b_now).0.peers.len() && {
                let p = #[trigger] received(b, a.probe(), a_addr, b_now).0.peers[i];
                p.id == a.id && p.name == a.name && p.addr == a_addr && p.tcp_port == a.tcp_port
                    && p.last_seen == b_now
            },
        received(
            SharedView { last_probe_at: Some(sent), ..a },
            b.here(),
            b_addr,
            now,
        ).0.peers.contains(
            PeerView {
                id: b.id,
                name: b.name,
                addr: b_addr,
                tcp_port: b.tcp_port,
                last_seen: now,
                rtt_micros: Some((elapsed(sent, now) / 1000) as u64),
            },
        ),
{
    let from_a = PeerView {
        id: a.id,
        name: a.name,
        addr: a_addr,
        tcp_port: a.tcp_port,
        last_seen: b_now,
        rtt_micros: None,
    };
    let i = heard_again(b.peers, from_a, from_a);
    assert(received(b, a.probe(), a_addr, b_now).0.peers[i] == heard(b.peers, from_a)[i]);
    let from_b = PeerView {
        id: b.id,
        name: b.name,
        addr: b_addr,
        tcp_port: b.tcp_port,
        last_seen: now,
        rtt_micros: Some((elapsed(sent, now) / 1000) as u64),
    };
    let j = heard_again(a.peers, from_b, from_b);
    let probed = SharedView { last_probe_at: Some(sent), ..a };
    assert(received(probed, b.here(), b_addr, now).0.peers[j] == from_b);
}

/// A node that says farewell is dropped by those who hear it, and nobody else is.
pub proof fn a_farewell_drops_one(s: SharedView, id: Seq<char>, src: Seq<char>, now: u64)
    ensures
        !received(s, PacketView::Bye { id }, src, now).0.knows(id),
        forall|p: PeerView|
            p.id != id ==> (#[trigger] s.peers.contains(p) <==> received(
                s,
                PacketView::Bye { id },
                src,
                now,
            ).0.peers.contains(p)),
{
    let keep = |q: PeerView| q.id != id;
    let after = received(s, PacketView::Bye { id }, src, now).0;
    filter_keeps(s.peers, keep);
    assert forall|p: PeerView| p.id != id implies (#[trigger] s.peers.contains(p)
        <==> after.peers.contains(p)) by {
        if s.peers.contains(p) {
            let k = choose|k: int| 0 <= k < s.peers.len() && s.peers[k] == p;
            assert(after.peers.contains(s.peers[k]));
        }
        if after.peers.contains(p) {
            let k = choose|k: int| 0 <= k < after.peers.len() && after.peers[k] == p;
            assert(s.peers.contains(after.peers[k]));
        }
    }
}

/// After an announcement exactly those peers are left that were heard of within the last
/// thirty seconds.
pub proof fn the_stale_are_dropped(s: SharedView, now: u64, p: PeerView)
    ensures
        announced(s, AnnounceEvent::Announced, now).0.peers.contains(p) <==> s.peers.contains(p)
            && elapsed(p.last_seen, now) < PEER_STALE_AFTER,
{
    let keep = |q: PeerView| elapsed(q.last_seen, now) < PEER_STALE_AFTER;
    let after = announced(s, AnnounceEvent::Announced, now).0;
    filter_keeps(s.peers, keep);
    if s.peers.contains(p) && keep(p) {
        let k = choose|k: int| 0 <= k < s.peers.len() && s.peers[k] == p;
        assert(after.peers.contains(s.peers[k]));
    }
    if after.peers.contains(p) {
        let k = choose|k: int| 0 <= k < after.peers.len() && after.peers[k] == p;
        assert(s.peers.contains(after.peers[k]));
    }
}

// ---------------------------------------------------------------------------
// Messages.
// ---------------------------------------------------------------------------
/// A node after messages have come, each from an address and at a time.
pub open spec fn after_messages(s: SharedView, msgs: Seq<(WireMsg, Seq<char>, u64)>) -> SharedView
    decreases msgs.len(),
{
    if msgs.len() == 0 {
        s
    } else {
        let (msg, addr, ms) = msgs.last();
        accepting(
            after_messages(s, msgs.drop_last()),
            InboxEvent::Parsed { msg: Some(msg), received_unix_ms: ms },
            addr,
        ).0
    }
}

/// Every message that has come is handed out, in the order in which they came, and once:
/// after that none is left.
pub proof fn messages_are_handed_out_in_order(
    s: SharedView,
    msgs: Seq<(WireMsg, Seq<char>, u64)>,
    wait_ms: u64,
    started: u64,
    now: u64,
)
    requires
        msgs.len() > 0,
    ensures
        reading(after_messages(s, msgs), wait_ms, started, now) == (
            SharedView { inbox: Seq::empty(), ..s },
            InboxStepView::Done(
                messages_json(
                    s.inbox + msgs.map_values(
                        |m: (WireMsg, Seq<char>, u64)| stored(m.0, m.1, m.2),
                    ),
                ),
            ),
        ),
        reading(reading(after_messages(s, msgs), wait_ms, started, now).0, 0, now, now).1
            == InboxStepView::Done(messages_json(Seq::empty())),
{
    inbox_after(s, msgs);
}

proof fn inbox_after(s: SharedView, msgs: Seq<(WireMsg, Seq<char>, u64)>)
    ensures
        after_messages(s, msgs) == (SharedView {
            inbox: s.inbox + msgs.map_values(
                |m: (WireMsg, Seq<char>, u64)| stored(m.0, m.1, m.2),
            ),
            ..s
        }),
    decreases msgs.len(),
{
    let f = |m: (WireMsg, Seq<char>, u64)| stored(m.0, m.1, m.2);
    if msgs.len() == 0 {
        assert(s.inbox + msgs.map_values(f) =~= s.inbox);
    } else {
        inbox_after(s, msgs.drop_last());
        assert(s.inbox + msgs.map_values(f) =~= (s.inbox + msgs.drop_last().map_values(f)).push(
            f(msgs.last()),
        ));
    }
}

/// A reader waits exactly where there is nothing to read and its time is not up, and then
/// for what is left of it: never beyond what was asked for, nor beyond the greatest wait.
pub proof fn reading_waits_for_what_is_left(s: SharedView, wait_ms: u64, started: u64, now: u64)
    ensures
        reading(s, wait_ms, started, now).1 is Wait <==> s.inbox.len() == 0 && elapsed(
            started,
            now,
        ) < wait_ms * 1_000_000 && elapsed(started, now) < INBOX_WAIT_MAX * 1_000_000,
        reading(s, wait_ms, started, now).1 matches InboxStepView::Wait(nanos) ==> 0 < nanos
            && elapsed(started, now) + nanos <= wait_ms * 1_000_000 && elapsed(started, now) + nanos
            <= INBOX_WAIT_MAX * 1_000_000,
{
}

/// A reader is told that there is no message only when its time is up: all that was asked
/// for, or the greatest wait.
pub proof fn an_empty_reply_means_the_time_is_up(
    s: SharedView,
    wait_ms: u64,
    started: u64,
    now: u64,
)
    requires
        s.inbox.len() == 0,
        reading(s, wait_ms, started, now).1 is Done,
    ensures
        reading(s, wait_ms, started, now).1 == InboxStepView::Done(messages_json(Seq::empty())),
        elapsed(started, now) >= wait_ms * 1_000_000 || elapsed(started, now) >= INBOX_WAIT_MAX
            * 1_000_000,
{
    assert(s.inbox =~= Seq::empty());
}

/// What goes over the wire for a message tells who sent it, and the message, to the letter.
pub proof fn messages_carry_their_sender(s: SharedView, body: Seq<char>)
    ensures
        wire_json(s, body).text("from_id"@) == Some(s.id),
        wire_json(s, body).text("from_name"@) == Some(s.name),
        wire_json(s, body).text("body"@) == Some(body),
{
    reveal_strlit("from_id");
    reveal_strlit("from_name");
    reveal_strlit("body");
    assert("from_id"@.len() == 7);
    assert("from_name"@.len() == 9);
    assert("body"@.len() == 4);
}

/// A message that one node sends reaches the inbox of the other to the letter. From the line
/// that carries it, the receiver takes the message that was sent; it is kept, once, behind
/// those that are there by then, with the address it came from; and it is acknowledged, so
/// that it counts as delivered.
pub proof fn a_message_sent_is_received(
    sender: SharedView,
    body: Seq<char>,
    receiver: SharedView,
    addr: Seq<char>,
    line: String,
    bytes: usize,
    meanwhile: SharedView,
    msg: WireMsg,
    received_unix_ms: u64,
    started: u64,
    now: u64,
)
    requires
        carries(line@, sender, body),
        bytes > 0,
        comes_of(
            InboxEvent::Parsed { msg: Some(msg), received_unix_ms },
            accepting(
                receiver,
                InboxEvent::Read { read: LineRead::Bytes(bytes), line },
                addr,
            ).1,
        ),
    ensures
        accepting(receiver, InboxEvent::Read { read: LineRead::Bytes(bytes), line }, addr) == (
            receiver,
            InboxActionView::Keep(wire_msg(sender, body)),
        ),
        accepting(meanwhile, InboxEvent::Parsed { msg: Some(msg), received_unix_ms }, addr).0 == (
        SharedView {
            inbox: meanwhile.inbox.push(
                InboxView {
                    from_id: sender.id,
                    from_name: sender.name,
                    from_addr: addr,
                    body,
                    received_unix_ms,
                },
            ),
            ..meanwhile
        }),
        accepting(
            meanwhile,
            InboxEvent::Parsed { msg: Some(msg), received_unix_ms },
            addr,
        ).1 matches InboxActionView::Ack(ack) && ack.len() > 0 && forall|n: usize|
            n == ack.len() ==> #[trigger] sending(
                sender,
                body,
                SendEvent::Ack(LineRead::Bytes(n)),
                started,
                now,
            ) == SendActionView::Finish(Ok((elapsed(started, now) / 1000) as u64)),
{
    messages_carry_their_sender(sender, body);
    reveal_strlit("{\"ok\":true}\n");
    vstd::utf8::encode_utf8_first_scalar("{\"ok\":true}\n"@);
}

/// Something that happens on one of several connections.
pub struct Occurrence {
    /// The connection.
    pub on: int,
    /// The address that it comes from.
    pub addr: Seq<char>,
    pub event: InboxEvent,
}

/// A node after things have happened on its connections, one after the other.
pub open spec fn after_all(s: SharedView, past: Seq<Occurrence>) -> SharedView
    decreases past.len(),
{
    if past.len() == 0 {
        s
    } else {
        accepting(after_all(s, past.drop_last()), past.last().event, past.last().addr).0
    }
}

/// What comes next on a connection, after what has last happened on it; none where nothing
/// has.
pub open spec fn next_on(s: SharedView, past: Seq<Occurrence>, on: int) -> Option<InboxActionView>
    decreases past.len(),
{
    if past.len() == 0 {
        None
    } else if past.last().on == on {
        Some(accepting(after_all(s, past.drop_last()), past.last().event, past.last().addr).1)
    } else {
        next_on(s, past.drop_last(), on)
    }
}

/// Whether, on each connection by itself, things happen as they must: it is accepted, and
/// then each event comes of the action before it. On different connections they may happen in
/// any order, and on any of them nothing more may happen at all.
pub open spec fn possible(s: SharedView, past: Seq<Occurrence>) -> bool
    decreases past.len(),
{
    past.len() == 0 || {
        &&& possible(s, past.drop_last())
        &&& match next_on(s, past.drop_last(), past.last().on) {
            None => past.last().event is Accepted,
            Some(action) => comes_of(past.last().event, action),
        }
    }
}

/// The messages that have come on all connections together, in the order in which they came.
pub open spec fn kept(past: Seq<Occurrence>) -> Seq<InboxView>
    decreases past.len(),
{
    if past.len() == 0 {
        Seq::empty()
    } else {
        match past.last().event {
            InboxEvent::Parsed { msg: Some(msg), received_unix_ms } => kept(past.drop_last()).push(
                stored(msg, past.last().addr, received_unix_ms),
            ),
            _ => kept(past.drop_last()),
        }
    }
}

/// How many acknowledgements have been sent on a connection.
pub open spec fn acks(s: SharedView, past: Seq<Occurrence>, on: int) -> nat
    decreases past.len(),
{
    if past.len() == 0 {
        0
    } else {
        acks(s, past.drop_last(), on) + if past.last().on == on && next_on(
            s,
            past,
            on,
        )->0 is Ack {
            1nat
        } else {
            0
        }
    }
}

/// How many messages have come on a connection.
pub open spec fn messages_on(past: Seq<Occurrence>, on: int) -> nat {
    kept(past.filter(|o: Occurrence| o.on == on)).len()
}

/// Several connections at once do not get into each other's way. However what happens on them
/// is mixed: each brings one message at most and sends one acknowledgement at most, as many as
/// it brings messages; all messages are in the inbox in the order in which they came; and an
/// acknowledgement is sent only when its message is there, as the latest.
pub proof fn connections_go_side_by_side(s: SharedView, past: Seq<Occurrence>, on: int)
    requires
        possible(s, past),
    ensures
        acks(s, past, on) <= 1,
        messages_on(past, on) == acks(s, past, on),
        after_all(s, past) == (SharedView { inbox: s.inbox + kept(past), ..s }),
        past.len() > 0 && next_on(s, past, past.last().on)->0 is Ack ==> kept(past)
            == kept(past.drop_last()).push(after_all(s, past).inbox.last()),
{
    acks_and_messages(s, past, on);
}

proof fn acks_and_messages(s: SharedView, past: Seq<Occurrence>, on: int)
    requires
        possible(s, past),
    ensures
        acks(s, past, on) == if next_on(s, past, on) is Some && next_on(s, past, on)->0 is Ack {
            1nat
        } else {
            0
        },
        messages_on(past, on) == acks(s, past, on),
        after_all(s, past) == (SharedView { inbox: s.inbox + kept(past), ..s }),
    decreases past.len(),
{
    reveal(Seq::filter);
    let mine = |o: Occurrence| o.on == on;
    if past.len() == 0 {
        assert(past.filter(mine) =~= Seq::empty());
        assert(s.inbox + kept(past) =~= s.inbox);
    } else {
        let front = past.drop_last();
        acks_and_messages(s, front, on);
        assert(past =~= front.push(past.last()));
        front.lemma_filter_push(past.last(), mine);
        if past.last().on == on {
            assert(past.filter(mine).drop_last() =~= front.filter(mine));
        }
        assert(after_all(s, past).inbox =~= s.inbox + kept(past));
    }
}

/// What comes next on a connection depends on what has happened on it alone: nothing on
/// another connection, nor its silence, changes or delays it.
pub proof fn a_stalled_connection_delays_no_other(
    s: SharedView,
    t: SharedView,
    event: InboxEvent,
    addr: Seq<char>,
)
    ensures
        accepting(s, event, addr).1 == accepting(t, event, addr).1,
{
}

/// Each target of a message has its own entry in the report, in its place: whether the
/// message was delivered to it, and the round-trip time or why not.
pub proof fn each_target_is_reported(targets: Seq<TargetView>, deliveries: Seq<Delivery>)
    requires
        deliveries.len() == targets.len(),
        forall|i: int|
            0 <= i < targets.len() ==> (#[trigger] deliveries[i]).peer@ == targets[i].name,
    ensures
        deliveries_json(deliveries).get("results"@) matches Some(JsonView::List(entries))
            && entries.len() == targets.len() && forall|i: int|
            0 <= i < targets.len() ==> #[trigger] entries[i] == match deliveries[i].outcome {
                Ok(micros) => delivered(targets[i].name, micros_json(micros)),
                Err(why) => undelivered(targets[i].name, why@),
            },
{
}

/// The LAN is scanned for the peer that a message is for only where no known peer is meant,
/// and once at most.
pub proof fn sending_scans_at_most_once(
    peers: Seq<PeerView>,
    to: Option<Seq<char>>,
    message: Option<Seq<char>>,
    scanned: bool,
)
    ensures
        sending_to(peers, to, message, scanned) is Scan <==> to is Some && message is Some
            && resolved(peers, to->0).len() == 0 && !scanned,
        sending_to(peers, to, message, true) is Deliver || sending_to(
            peers,
            to,
            message,
            true,
        ) is Fail,
        sending_to(peers, to, message, scanned) matches SendStepView::Deliver {
            targets,
            message: m,
        } ==> targets.len() > 0 && message == Some(m),
{
}

/// A message goes to peers that are known, and, unless it is for all, to one at most.
pub proof fn targets_are_known(peers: Seq<PeerView>, to: Seq<char>)
    ensures
        forall|i: int|
            0 <= i < resolved(peers, to).len() ==> exists|k: int|
                0 <= k < peers.len() && #[trigger] target(peers[k])
                    == #[trigger] resolved(peers, to)[i],
        !to_all(to) ==> resolved(peers, to).len() <= 1,
        to_all(to) ==> resolved(peers, to).len() == peers.len(),
{
    let whole = |p: PeerView| p.id == to || p.name == to;
    let start = |p: PeerView| to.is_prefix_of(p.name);
    filter_keeps(peers, whole);
    filter_keeps(peers, start);
    assert forall|i: int| 0 <= i < resolved(peers, to).len() implies exists|k: int|
        0 <= k < peers.len() && #[trigger] target(peers[k]) == #[trigger] resolved(
            peers,
            to,
        )[i] by {
        if to_all(to) {
            assert(target(peers[i]) == resolved(peers, to)[i]);
        } else if called(peers, to).len() > 0 {
            let p = called(peers, to)[0];
            assert(peers.contains(p));
            let k = choose|k: int| 0 <= k < peers.len() && peers[k] == p;
            assert(target(peers[k]) == resolved(peers, to)[i]);
        } else {
            let p = prefixed(peers, to)[0];
            assert(peers.contains(p));
            let k = choose|k: int| 0 <= k < peers.len() && peers[k] == p;
            assert(target(peers[k]) == resolved(peers, to)[i]);
        }
    }
}

/// Where exactly one of the peers is to be kept, that one is.
pub(crate) proof fn filter_one(peers: Seq<PeerView>, keep: spec_fn(PeerView) -> bool, i: int)
    requires
        0 <= i < peers.len(),
        keep(peers[i]),
        forall|k: int| 0 <= k < peers.len() && k != i ==> !keep(#[trigger] peers[k]),
    ensures
        peers.filter(keep) == seq![peers[i]],
    decreases peers.len(),
{
    reveal(Seq::filter);
    let front = peers.drop_last();
    assert forall|k: int| 0 <= k < front.len() implies #[trigger] front[k] == peers[k] by {}
    if i == peers.len() - 1 {
        filter_none(front, keep);
    } else {
        filter_one(front, keep, i);
        assert(!keep(peers[peers.len() - 1]));
    }
    assert(peers.filter(keep) =~= seq![peers[i]]);
}

pub(crate) proof fn filter_none(peers: Seq<PeerView>, keep: spec_fn(PeerView) -> bool)
    requires
        forall|k: int| 0 <= k < peers.len() ==> !keep(#[trigger] peers[k]),
    ensures
        peers.filter(keep) == Seq::<PeerView>::empty(),
    decreases peers.len(),
{
    reveal(Seq::filter);
    if peers.len() > 0 {
        let front = peers.drop_last();
        assert forall|k: int| 0 <= k < front.len() implies !keep(#[trigger] front[k]) by {
            assert(front[k] == peers[k]);
        }
        filter_none(front, keep);
        assert(!keep(peers[peers.len() - 1]));
    }
    assert(peers.filter(keep) =~= Seq::<PeerView>::empty());
}

/// The id or the whole name of one peer finds that peer, whatever other names start with
/// it.
pub proof fn a_whole_name_finds_its_peer(peers: Seq<PeerView>, to: Seq<char>, i: int)
    requires
        !to_all(to),
        0 <= i < peers.len(),
        peers[i].id == to || peers[i].name == to,
        forall|k: int|
            0 <= k < peers.len() && k != i ==> (#[trigger] peers[k]).id != to && peers[k].name
                != to,
    ensures
        resolved(peers, to) == seq![target(peers[i])],
{
    let whole = |p: PeerView| p.id == to || p.name == to;
    filter_one(peers, whole, i);
}

/// The start of a name finds the one peer whose name has it, where it is nobody's id or
/// whole name.
pub proof fn a_unique_prefix_finds_its_peer(peers: Seq<PeerView>, to: Seq<char>, i: int)
    requires
        !to_all(to),
        forall|k: int|
            0 <= k < peers.len() ==> (#[trigger] peers[k]).id != to && peers[k].name != to,
        0 <= i < peers.len(),
        to.is_prefix_of(peers[i].name),
        forall|k: int|
            0 <= k < peers.len() && k != i ==> !to.is_prefix_of((#[trigger] peers[k]).name),
    ensures
        resolved(peers, to) == seq![target(peers[i])],
{
    let whole = |p: PeerView| p.id == to || p.name == to;
    let start = |p: PeerView| to.is_prefix_of(p.name);
    filter_none(peers, whole);
    filter_one(peers, start, i);
}

/// Two peers that are to be kept are both kept.
pub(crate) proof fn filter_two(peers: Seq<PeerView>, keep: spec_fn(PeerView) -> bool, i: int, j: int)
    requires
        0 <= i < j < peers.len(),
        keep(peers[i]),
        keep(peers[j]),
    ensures
        peers.filter(keep).len() >= 2,
    decreases peers.len(),
{
    reveal(Seq::filter);
    let front = peers.drop_last();
    assert(front[i] == peers[i]);
    if j == peers.len() - 1 {
        filter_keeps(front, keep);
        assert(front.filter(keep).contains(front[i]));
    } else {
        assert(front[j] == peers[j]);
        filter_two(front, keep, i, j);
    }
}

/// The start of two names, or of none, finds nobody, where it is nobody's id or whole name.
pub proof fn an_ambiguous_prefix_finds_nobody(peers: Seq<PeerView>, to: Seq<char>, i: int, j: int)
    requires
        !to_all(to),
        forall|k: int|
            0 <= k < peers.len() ==> (#[trigger] peers[k]).id != to && peers[k].name != to,
        ({
            ||| 0 <= i < j < peers.len() && to.is_prefix_of(peers[i].name) && to.is_prefix_of(
                peers[j].name,
            )
            ||| forall|k: int|
                0 <= k < peers.len() ==> !to.is_prefix_of((#[trigger] peers[k]).name)
        }),
    ensures
        resolved(peers, to).len() == 0,
{
    let whole = |p: PeerView| p.id == to || p.name == to;
    let start = |p: PeerView| to.is_prefix_of(p.name);
    filter_none(peers, whole);
    if 0 <= i < j < peers.len() && to.is_prefix_of(peers[i].name) && to.is_prefix_of(
        peers[j].name,
    ) {
        filter_two(peers, start, i, j);
    } else {
        filter_none(peers, start);
    }
}

// ---------------------------------------------------------------------------
// The protocol.
// ---------------------------------------------------------------------------
proof fn response_names_differ()
    ensures
        "id"@ != "jsonrpc"@,
        "id"@ != "result"@,
        "id"@ != "error"@,
        "jsonrpc"@ != "result"@,
        "jsonrpc"@ != "error"@,
        "result"@ != "error"@,
{
    reveal_strlit("id");
    reveal_strlit("jsonrpc");
    reveal_strlit("result");
    reveal_strlit("error");
    assert("id"@.len() == 2);
    assert("jsonrpc"@.len() == 7);
    assert("result"@.len() == 6);
    assert("error"@.len() == 5);
}

/// Whether a value is a response of JSON-RPC 2.0 to the request `id`: it carries the id, and
/// a result or an error, not both.
pub open spec fn responds(j: JsonView, id: JsonView) -> bool {
    &&& j.get("jsonrpc"@) == Some(JsonView::Text("2.0"@))
    &&& j.get("id"@) == Some(id)
    &&& j.get("result"@) is Some <==> j.get("error"@) is None
}

/// What is sent back for a result or an error is a response to the request.
pub proof fn responses_respond(id: JsonView, result: JsonView, code: i64, message: Seq<char>)
    ensures
        responds(response(id, result), id),
        response(id, result).get("result"@) == Some(result),
        responds(error_response(id, code, message), id),
        error_response(id, code, message).get("error"@) is Some,
{
    response_names_differ();
}

/// A notification gets no response; every other request gets one that carries its id, at
/// once or after a call of a tool. Only a method that does not exist gets an error.
pub proof fn requests_are_answered(req: JsonView, brand: BrandView)
    ensures
        request_id(req) is None <==> dispatched(req, brand) is Skip,
        dispatched(req, brand) matches DispatchView::Answer(j) ==> request_id(req) is Some
            && responds(j, request_id(req)->0),
        dispatched(req, brand) matches DispatchView::Call { id, call } ==> request_id(req) == Some(
            id,
        ),
        dispatched(req, brand) matches DispatchView::Answer(j) ==> (j.get("error"@) is Some
            <==> !known_method(crate::mcp::text_or_empty(req, "method"@))),
{
    response_names_differ();
}

/// The methods that the server knows.
pub open spec fn known_method(method: Seq<char>) -> bool {
    method == "initialize"@ || method == "ping"@ || method == "tools/list"@ || method
        == "tools/call"@
}

proof fn tool_names_differ()
    ensures
        "name"@ != "description"@,
        "name"@ != "inputSchema"@,
        "lan_whoami"@.len() > 0,
        "lan_discover"@.len() > 0,
        "lan_peers"@.len() > 0,
        "lan_send"@.len() > 0,
        "lan_inbox"@.len() > 0,
{
    reveal_strlit("name");
    reveal_strlit("description");
    reveal_strlit("inputSchema");
    reveal_strlit("lan_whoami");
    reveal_strlit("lan_discover");
    reveal_strlit("lan_peers");
    reveal_strlit("lan_send");
    reveal_strlit("lan_inbox");
    assert("name"@.len() == 4);
    assert("description"@.len() == 11);
    assert("inputSchema"@.len() == 11);
}

/// The tools that are offered are the tools that can be called: a call names a tool of the
/// server exactly when the name is that of a tool in the list.
pub proof fn offered_tools_can_be_called(params: JsonView, agent: Seq<char>)
    ensures
        asked(params) is Ok <==> exists|i: int|
            0 <= i < tools(agent).len() && (#[trigger] tools(agent)[i]).text("name"@) is Some
                && tools(agent)[i].text("name"@) == params.text("name"@),
{
    tool_names_differ();
    let t = tools(agent);
    assert(t.len() == 5);
    assert(t[0].text("name"@) == Some("lan_whoami"@));
    assert(t[1].text("name"@) == Some("lan_discover"@));
    assert(t[2].text("name"@) == Some("lan_peers"@));
    assert(t[3].text("name"@) == Some("lan_send"@));
    assert(t[4].text("name"@) == Some("lan_inbox"@));
}

// ---------------------------------------------------------------------------
// Numbers.
// ---------------------------------------------------------------------------
/// Rounding is off by half a unit at most.
pub proof fn rounding_is_near(n: nat, unit: nat)
    requires
        unit > 0,
    ensures
        2 * n <= 2 * unit * nearest(n, unit) + unit,
        2 * unit * nearest(n, unit) <= 2 * n + unit,
{
    let q = n / unit;
    let r = n % unit;
    vstd::arithmetic::div_mod::lemma_fundamental_div_mod(n as int, unit as int);
    assert(n == unit * q + r);
    assert(2 * unit * (q + 1) == 2 * (unit * q) + 2 * unit) by (nonlinear_arith);
    assert(2 * unit * q == 2 * (unit * q)) by (nonlinear_arith);
}

/// A port number in decimal notation reads as that port.
pub proof fn ports_read_back(p: u16)
    ensures
        port(decimal(p as nat)) == Some(p),
{
    crate::notation::decimals_read_back(p as nat);
    crate::notation::ports_are_small_numbers(decimal(p as nat));
}

}
