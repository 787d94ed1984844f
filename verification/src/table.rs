//! What packets and announcing do to the peer table, entry by entry, and what packets are on
//! the wire.
use crate::json::JsonView;
use crate::net::announced;
use crate::net::departed;
use crate::net::heard;
use crate::net::heard_shape;
use crate::net::member_names_differ;
use crate::net::packet_json;
use crate::net::packet_members;
use crate::net::received;
use crate::net::recent;
use crate::net::AnnounceEvent;
use crate::net::AnnounceView;
use crate::net::PacketView;
use crate::state::PeerView;
use crate::state::SharedView;
use vstd::prelude::*;

verus! {

/// Whether a peer with this id is in a table.
pub open spec fn lists(peers: Seq<PeerView>, id: Seq<char>) -> bool {
    exists|i: int| 0 <= i < peers.len() && (#[trigger] peers[i]).id == id
}

/// Whether two states of a node are the same but for the peers.
pub open spec fn same_but_for_peers(a: SharedView, b: SharedView) -> bool {
    &&& a.id == b.id
    &&& a.name == b.name
    &&& a.tcp_port == b.tcp_port
    &&& a.inbox == b.inbox
    &&& a.last_probe_at == b.last_probe_at
}

/// Whether a table is another one after news of a peer: one entry at most is new, every entry
/// of another peer is where and what it was, and the peer has its entry.
pub open spec fn has_heard(
    before: Seq<PeerView>,
    after: Seq<PeerView>,
    id: Seq<char>,
    i: int,
) -> bool {
    &&& after.len() == before.len() + if lists(before, id) {
        0int
    } else {
        1
    }
    &&& 0 <= i < after.len()
    &&& after[i].id == id
    &&& i < before.len() ==> before[i].id == id
    &&& forall|k: int| 0 <= k < before.len() && k != i ==> (#[trigger] after[k]) == before[k]
    &&& forall|k: int| 0 <= k < after.len() && k != i ==> k < before.len() && (
    #[trigger] after[k]) == before[k]
}

/// News of a peer go into its own entry, which is new where there was none; they leave every
/// other one alone. The round-trip time stays where they bring none.
pub proof fn news_concern_one_entry(peers: Seq<PeerView>, news: PeerView) -> (i: int)
    ensures
        has_heard(peers, heard(peers, news), news.id, i),
        heard(peers, news)[i].name == news.name,
        heard(peers, news)[i].addr == news.addr,
        heard(peers, news)[i].tcp_port == news.tcp_port,
        heard(peers, news)[i].last_seen == news.last_seen,
        news.rtt_micros is Some ==> heard(peers, news)[i].rtt_micros == news.rtt_micros,
        news.rtt_micros is None && i < peers.len() ==> heard(peers, news)[i].rtt_micros
            == peers[i].rtt_micros,
        news.rtt_micros is None && i >= peers.len() ==> heard(peers, news)[i].rtt_micros is None,
        forall|q: PeerView|
            q.id != news.id ==> (#[trigger] peers.contains(q) <==> heard(peers, news).contains(q)),
{
    let i = heard_shape(peers, news);
    let after = heard(peers, news);
    if i < peers.len() {
        assert(peers[i].id == news.id);
    } else if lists(peers, news.id) {
        let k = choose|k: int| 0 <= k < peers.len() && (#[trigger] peers[k]).id == news.id;
        assert(peers[k].id != news.id);
    }
    assert forall|q: PeerView| q.id != news.id implies (#[trigger] peers.contains(q)
        <==> after.contains(q)) by {
        if peers.contains(q) {
            let k = choose|k: int| 0 <= k < peers.len() && peers[k] == q;
            assert(after[k] == q);
        }
        if after.contains(q) {
            let k = choose|k: int| 0 <= k < after.len() && after[k] == q;
            assert(peers[k] == q);
        }
    }
    i
}

/// A probe of another node is answered with who this node is and where it is reached, and its
/// sender has an entry with the name, the address and the port it told, as heard of now. Every
/// other peer, and all else about the node, is left alone.
pub proof fn a_probe_is_heard(
    s: SharedView,
    id: Seq<char>,
    name: Seq<char>,
    port: u16,
    src: Seq<char>,
    now: u64,
) -> (i: int)
    requires
        id != s.id,
    ensures
        ({
            let (after, answer) = received(s, PacketView::Probe { id, name, port }, src, now);
            &&& answer == Some(
                PacketView::Here { id: s.id, name: s.name, port: s.tcp_port },
            )
            &&& same_but_for_peers(after, s)
            &&& has_heard(s.peers, after.peers, id, i)
            &&& after.peers[i].name == name
            &&& after.peers[i].addr == src
            &&& after.peers[i].tcp_port == port
            &&& after.peers[i].last_seen == now
            &&& i < s.peers.len() ==> after.peers[i].rtt_micros == s.peers[i].rtt_micros
            &&& i >= s.peers.len() ==> after.peers[i].rtt_micros is None
            &&& forall|q: PeerView|
                q.id != id ==> (#[trigger] s.peers.contains(q) <==> after.peers.contains(q))
        }),
{
    news_concern_one_entry(
        s.peers,
        PeerView { id, name, addr: src, tcp_port: port, last_seen: now, rtt_micros: None },
    )
}

/// An announcement of another node is not answered; its sender has an entry with the name, the
/// address and the port it told, as heard of now. Where a probe was sent less than two seconds
/// ago, its round-trip time is the time since then in microseconds; else it stays. Every other
/// peer, and all else about the node, is left alone.
pub proof fn an_announcement_is_heard(
    s: SharedView,
    id: Seq<char>,
    name: Seq<char>,
    port: u16,
    src: Seq<char>,
    now: u64,
) -> (i: int)
    requires
        id != s.id,
    ensures
        ({
            let (after, answer) = received(s, PacketView::Here { id, name, port }, src, now);
            let recently = s.last_probe_at is Some && now - s.last_probe_at->0 < 2_000_000_000;
            let before = if i < s.peers.len() {
                s.peers[i].rtt_micros
            } else {
                None
            };
            &&& answer is None
            &&& same_but_for_peers(after, s)
            &&& has_heard(s.peers, after.peers, id, i)
            &&& after.peers[i].name == name
            &&& after.peers[i].addr == src
            &&& after.peers[i].tcp_port == port
            &&& after.peers[i].last_seen == now
            &&& recently && s.last_probe_at->0 <= now ==> after.peers[i].rtt_micros is Some
                && after.peers[i].rtt_micros->0 == (now - s.last_probe_at->0) / 1000
            &&& recently && s.last_probe_at->0 > now ==> after.peers[i].rtt_micros == Some(0u64)
            &&& !recently ==> after.peers[i].rtt_micros == before
            &&& forall|q: PeerView|
                q.id != id ==> (#[trigger] s.peers.contains(q) <==> after.peers.contains(q))
        }),
{
    news_concern_one_entry(
        s.peers,
        PeerView {
            id,
            name,
            addr: src,
            tcp_port: port,
            last_seen: now,
            rtt_micros: crate::net::answer_time(s.last_probe_at, now),
        },
    )
}

/// What carries the node's own id and is no farewell leaves it as it is, unanswered.
pub proof fn its_own_id_is_passed_over(
    s: SharedView,
    name: Seq<char>,
    port: u16,
    src: Seq<char>,
    now: u64,
)
    ensures
        received(s, PacketView::Probe { id: s.id, name, port }, src, now) == (
            s,
            None::<PacketView>,
        ),
        received(s, PacketView::Here { id: s.id, name, port }, src, now) == (
            s,
            None::<PacketView>,
        ),
{
}

/// Leaving entries out leaves the others as often as they were.
proof fn filter_counts(peers: Seq<PeerView>, keep: spec_fn(PeerView) -> bool, q: PeerView)
    ensures
        peers.filter(keep).to_multiset().count(q) == if keep(q) {
            peers.to_multiset().count(q)
        } else {
            0
        },
    decreases peers.len(),
{
    reveal(Seq::filter);
    if peers.len() == 0 {
        assert(peers.filter(keep) =~= peers);
        assert(peers =~= Seq::empty());
        peers.to_multiset_ensures();
    } else {
        let front = peers.drop_last();
        filter_counts(front, keep, q);
        front.to_multiset_ensures();
        front.filter(keep).to_multiset_ensures();
        assert(peers =~= front.push(peers.last()));
    }
}

/// A farewell takes out every entry with the id that it tells, and leaves every other one, as
/// often as it was there, and all else about the node. It is not answered.
pub proof fn a_farewell_is_heard(
    s: SharedView,
    id: Seq<char>,
    src: Seq<char>,
    now: u64,
    q: PeerView,
)
    ensures
        ({
            let (after, answer) = received(s, PacketView::Bye { id }, src, now);
            &&& answer is None
            &&& same_but_for_peers(after, s)
            &&& q.id == id ==> after.peers.to_multiset().count(q) == 0
            &&& q.id != id ==> after.peers.to_multiset().count(q) == s.peers.to_multiset().count(q)
        }),
{
    filter_counts(s.peers, |p: PeerView| p.id != id, q);
    assert(received(s, PacketView::Bye { id }, src, now).0.peers == departed(s.peers, id));
}

/// Dropping the stale takes out the peers that were not heard of for thirty seconds or more,
/// and leaves every other one, as often as it was there.
pub proof fn the_recent_stay(peers: Seq<PeerView>, now: u64, q: PeerView)
    ensures
        now - q.last_seen >= 30_000_000_000 ==> recent(peers, now).to_multiset().count(q) == 0,
        now - q.last_seen < 30_000_000_000 ==> recent(peers, now).to_multiset().count(q)
            == peers.to_multiset().count(q),
{
    filter_counts(
        peers,
        |p: PeerView| crate::state::elapsed(p.last_seen, now) < crate::net::PEER_STALE_AFTER,
        q,
    );
}

/// Announcing, step by step: a probe that tells who the node is and where it is reached, with
/// the instant noted; a wait of five seconds; an announcement that tells the same; and the
/// stale are dropped before the next wait. Nothing else about the node changes.
pub proof fn announcing_goes_round(s: SharedView, now: u64, q: PeerView)
    ensures
        announced(s, AnnounceEvent::Started, now).1 == AnnounceView::Probe(
            (PacketView::Probe { id: s.id, name: s.name, port: s.tcp_port }),
        ),
        announced(s, AnnounceEvent::Started, now).0.last_probe_at == Some(now),
        announced(s, AnnounceEvent::Started, now).0.peers == s.peers,
        announced(s, AnnounceEvent::Started, now).0.inbox == s.inbox,
        announced(s, AnnounceEvent::Started, now).0.id == s.id,
        announced(s, AnnounceEvent::Started, now).0.name == s.name,
        announced(s, AnnounceEvent::Started, now).0.tcp_port == s.tcp_port,
        announced(s, AnnounceEvent::Probed, now) == (s, AnnounceView::Sleep(5000)),
        announced(s, AnnounceEvent::Woke, now) == (
            s,
            AnnounceView::Announce(
                (PacketView::Here { id: s.id, name: s.name, port: s.tcp_port }),
            ),
        ),
        announced(s, AnnounceEvent::Announced, now).1 == AnnounceView::Sleep(5000),
        same_but_for_peers(announced(s, AnnounceEvent::Announced, now).0, s),
        announced(s, AnnounceEvent::Announced, now).0.peers.to_multiset().count(q) == if now
            - q.last_seen < 30_000_000_000 {
            s.peers.to_multiset().count(q)
        } else {
            0
        },
{
    the_recent_stay(s.peers, now, q);
}

/// A node's packets tell who it is and where it is reached.
pub proof fn packets_tell_who_sends_them(s: SharedView)
    ensures
        s.probe() == (PacketView::Probe { id: s.id, name: s.name, port: s.tcp_port }),
        s.here() == (PacketView::Here { id: s.id, name: s.name, port: s.tcp_port }),
        s.bye() == (PacketView::Bye { id: s.id }),
{
}

/// Whether a value is an object that has a member with this value.
pub open spec fn has(j: JsonView, name: Seq<char>, value: JsonView) -> bool {
    j matches JsonView::Object(m) && m.contains_key(name) && m[name] == value
}

/// On the wire a packet is an object with its kind first, then its fields in their order, each
/// to the letter, and no other member.
pub proof fn packets_are_told_whole(p: PacketView, id: Seq<char>, name: Seq<char>, port: u16)
    ensures
        p == (PacketView::Probe { id, name, port }) || p == (PacketView::Here { id, name, port })
            ==> ({
            let m = packet_members(p);
            &&& m.len() == 4
            &&& m[0].0 == "t"@ && (p is Probe ==> m[0].1 == JsonView::Text("probe"@)) && (p is Here
                ==> m[0].1 == JsonView::Text("here"@))
            &&& m[1] == ("id"@, JsonView::Text(id))
            &&& m[2] == ("name"@, JsonView::Text(name))
            &&& m[3] == ("port"@, JsonView::Int(port as int))
        }),
        p == (PacketView::Bye { id }) ==> ({
            let m = packet_members(p);
            &&& m.len() == 2
            &&& m[0] == ("t"@, JsonView::Text("bye"@))
            &&& m[1] == ("id"@, JsonView::Text(id))
        }),
        forall|i: int|
            0 <= i < packet_members(p).len() ==> has(
                packet_json(p),
                (#[trigger] packet_members(p)[i]).0,
                packet_members(p)[i].1,
            ),
        packet_json(p) matches JsonView::Object(m) && m.dom().len() == packet_members(p).len(),
{
    member_names_differ();
}

}
