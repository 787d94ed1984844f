//! Discovery: the packets that nodes send to the multicast group, and what a node
//! does about them.
use crate::json::add_member;
use crate::json::max_depth;
use crate::json::members_list;
use crate::json::members_view;
use crate::json::parsed;
use crate::json::readable;
use crate::json::rendered_in_order;
use crate::json::to_text_in_order;
use crate::json::Json;
use crate::json::JsonView;
use crate::state::elapsed;
use crate::state::elapsed_nanos;
use crate::state::option_view;
use crate::state::peers_view;
use crate::state::PeerInfo;
use crate::state::PeerView;
use crate::state::Shared;
use crate::state::SharedView;
use crate::text::copy;
use crate::text::port;
use crate::text::port_of;
use crate::text::same;
use vstd::prelude::*;
use vstd::string::*;

verus! {

/// Fixed multicast group for discovery (administratively scoped, LAN-only).
pub const MCAST_GROUP: &'static str = "239.92.108.99";

/// The discovery port where none was chosen.
pub const DEFAULT_PORT: u16 = 48618;

/// How long a node waits between two announcements, in milliseconds.
pub const ANNOUNCE_EVERY: u64 = 5000;

/// After how many nanoseconds without a packet a peer is dropped.
pub const PEER_STALE_AFTER: u64 = 30_000_000_000;

/// For how many nanoseconds after a probe an answer counts as the answer to it.
pub const PROBE_ANSWERED_WITHIN: u64 = 2_000_000_000;

/// The discovery port for a setting: the port number it writes, or the default where
/// there is no setting or it writes none.
pub open spec fn discovery_port(setting: Option<Seq<char>>) -> u16 {
    match setting {
        Some(s) => match port(s) {
            Some(p) => p,
            None => DEFAULT_PORT,
        },
        None => DEFAULT_PORT,
    }
}

/// The discovery port.
pub fn mcast_port(setting: Option<String>) -> (r: u16)
    ensures
        r == discovery_port(option_view(setting)),
{
    match setting {
        Some(s) => match port_of(s.as_str()) {
            Some(p) => p,
            None => DEFAULT_PORT,
        },
        None => DEFAULT_PORT,
    }
}

/// What nodes tell each other.
pub enum Packet {
    /// Active probe: "who's out there?" — peers reply with `Here`.
    Probe { id: String, name: String, port: u16 },
    /// Presence announcement and answer to a probe. It goes to the multicast group, so
    /// that all nodes on one host see every answer.
    Here { id: String, name: String, port: u16 },
    /// Clean shutdown.
    Bye { id: String },
}

/// What a [`Packet`] holds.
pub enum PacketView {
    Probe { id: Seq<char>, name: Seq<char>, port: u16 },
    Here { id: Seq<char>, name: Seq<char>, port: u16 },
    Bye { id: Seq<char> },
}

impl View for Packet {
    type V = PacketView;

    open spec fn view(&self) -> PacketView {
        match self {
            Packet::Probe { id, name, port } => PacketView::Probe {
                id: id@,
                name: name@,
                port: *port,
            },
            Packet::Here { id, name, port } => PacketView::Here { id: id@, name: name@, port: *port },
            Packet::Bye { id } => PacketView::Bye { id: id@ },
        }
    }
}

/// What an answer holds, where there is one.
pub open spec fn answer_view(p: Option<Packet>) -> Option<PacketView> {
    match p {
        Some(p) => Some(p@),
        None => None,
    }
}

impl SharedView {
    /// The node's announcement of itself.
    pub open spec fn here(self) -> PacketView {
        PacketView::Here { id: self.id, name: self.name, port: self.tcp_port }
    }

    /// The node's probe.
    pub open spec fn probe(self) -> PacketView {
        PacketView::Probe { id: self.id, name: self.name, port: self.tcp_port }
    }

    /// The node's farewell.
    pub open spec fn bye(self) -> PacketView {
        PacketView::Bye { id: self.id }
    }
}

/// A peer after news of it: what the news say, with the round-trip time from before
/// where they bring none.
pub open spec fn updated(before: PeerView, news: PeerView) -> PeerView {
    PeerView {
        rtt_micros: if news.rtt_micros is Some {
            news.rtt_micros
        } else {
            before.rtt_micros
        },
        ..news
    }
}

/// The peers after news of one: it is updated in its place, or comes last where it was
/// not known; the others stay as they are.
pub open spec fn heard(peers: Seq<PeerView>, news: PeerView) -> Seq<PeerView>
    decreases peers.len(),
{
    if peers.len() == 0 {
        seq![news]
    } else if peers[0].id == news.id {
        seq![updated(peers[0], news)] + peers.drop_first()
    } else {
        seq![peers[0]] + heard(peers.drop_first(), news)
    }
}

/// The peers without the one that has gone.
pub open spec fn departed(peers: Seq<PeerView>, id: Seq<char>) -> Seq<PeerView> {
    peers.filter(|p: PeerView| p.id != id)
}

/// The peers that were heard of recently enough.
pub open spec fn recent(peers: Seq<PeerView>, now: u64) -> Seq<PeerView> {
    peers.filter(|p: PeerView| elapsed(p.last_seen, now) < PEER_STALE_AFTER)
}

/// The round-trip time to a peer whose announcement comes in now, where a probe was sent
/// recently enough for this to be the answer.
pub open spec fn answer_time(last_probe_at: Option<u64>, now: u64) -> Option<u64> {
    match last_probe_at {
        Some(t) => if elapsed(t, now) < PROBE_ANSWERED_WITHIN {
            Some((elapsed(t, now) / 1000) as u64)
        } else {
            None
        },
        None => None,
    }
}

/// What a node does when a packet comes in: the node after it, and the answer.
pub open spec fn received(s: SharedView, p: PacketView, src: Seq<char>, now: u64) -> (
    SharedView,
    Option<PacketView>,
) {
    match p {
        PacketView::Probe { id, name, port } => if id == s.id {
            (s, None)
        } else {
            let news = PeerView {
                id,
                name,
                addr: src,
                tcp_port: port,
                last_seen: now,
                rtt_micros: None,
            };
            (SharedView { peers: heard(s.peers, news), ..s }, Some(s.here()))
        },
        PacketView::Here { id, name, port } => if id == s.id {
            (s, None)
        } else {
            let news = PeerView {
                id,
                name,
                addr: src,
                tcp_port: port,
                last_seen: now,
                rtt_micros: answer_time(s.last_probe_at, now),
            };
            (SharedView { peers: heard(s.peers, news), ..s }, None)
        },
        PacketView::Bye { id } => (SharedView { peers: departed(s.peers, id), ..s }, None),
    }
}

/// News of a peer change its entry or add one, and leave the others where they are.
pub(crate) proof fn heard_shape(peers: Seq<PeerView>, news: PeerView) -> (i: int)
    ensures
        0 <= i <= peers.len(),
        forall|k: int| 0 <= k < i ==> (#[trigger] peers[k]).id != news.id,
        i < peers.len() ==> peers[i].id == news.id && heard(peers, news) == peers.update(
            i,
            updated(peers[i], news),
        ),
        i == peers.len() ==> heard(peers, news) == peers.push(news),
    decreases peers.len(),
{
    if peers.len() == 0 {
        assert(heard(peers, news) =~= peers.push(news));
        0
    } else if peers[0].id == news.id {
        assert(heard(peers, news) =~= peers.update(0, updated(peers[0], news)));
        0
    } else {
        let rest = peers.drop_first();
        let i = heard_shape(rest, news);
        assert forall|k: int| 0 <= k < i + 1 implies (#[trigger] peers[k]).id != news.id by {
            if k > 0 {
                assert(peers[k] == rest[k - 1]);
            }
        }
        if i < rest.len() {
            assert(heard(peers, news) =~= peers.update(i + 1, updated(peers[i + 1], news)));
        } else {
            assert(heard(peers, news) =~= peers.push(news));
        }
        i + 1
    }
}

/// The members of a packet's JSON, in their order: its kind under `t` first.
pub open spec fn packet_members(p: PacketView) -> Seq<(Seq<char>, JsonView)> {
    match p {
        PacketView::Probe { id, name, port } => presence_members("probe"@, id, name, port),
        PacketView::Here { id, name, port } => presence_members("here"@, id, name, port),
        PacketView::Bye { id } => seq![
            ("t"@, JsonView::Text("bye"@)),
            ("id"@, JsonView::Text(id)),
        ],
    }
}

/// The members of a packet that tells where a node is.
pub open spec fn presence_members(
    kind: Seq<char>,
    id: Seq<char>,
    name: Seq<char>,
    port: u16,
) -> Seq<(Seq<char>, JsonView)> {
    seq![
        ("t"@, JsonView::Text(kind)),
        ("id"@, JsonView::Text(id)),
        ("name"@, JsonView::Text(name)),
        ("port"@, JsonView::Int(port as int)),
    ]
}

/// The JSON for a packet: an object that names its kind under `t`.
pub open spec fn packet_json(p: PacketView) -> JsonView {
    match p {
        PacketView::Probe { id, name, port } => presence_json("probe"@, id, name, port),
        PacketView::Here { id, name, port } => presence_json("here"@, id, name, port),
        PacketView::Bye { id } => JsonView::Object(
            map!["t"@ => JsonView::Text("bye"@), "id"@ => JsonView::Text(id)],
        ),
    }
}

/// The JSON for a packet that tells where a node is.
pub open spec fn presence_json(
    kind: Seq<char>,
    id: Seq<char>,
    name: Seq<char>,
    port: u16,
) -> JsonView {
    JsonView::Object(
        map![
            "t"@ => JsonView::Text(kind),
            "id"@ => JsonView::Text(id),
            "name"@ => JsonView::Text(name),
            "port"@ => JsonView::Int(port as int),
        ],
    )
}

/// The names of a packet's members are different ones.
pub(crate) proof fn member_names_differ()
    ensures
        "t"@ != "id"@,
        "t"@ != "name"@,
        "t"@ != "port"@,
        "id"@ != "name"@,
        "id"@ != "port"@,
        "name"@ != "port"@,
{
    reveal_strlit("t");
    reveal_strlit("id");
    reveal_strlit("name");
    reveal_strlit("port");
    assert("t"@.len() == 1 && "id"@.len() == 2);
    assert("name"@.len() == 4 && "port"@.len() == 4);
    assert("name"@[0] == 'n' && "port"@[0] == 'p');
}

fn presence(kind: &str, id: &String, name: &String, port: u16) -> (r: Vec<(String, Json)>)
    ensures
        members_list(r@) == presence_members(kind@, id@, name@, port),
        JsonView::Object(members_view(r@)) == presence_json(kind@, id@, name@, port),
{
    let mut m: Vec<(String, Json)> = Vec::new();
    add_member(&mut m, "t", Json::text(kind));
    add_member(&mut m, "id", Json::text(id.as_str()));
    add_member(&mut m, "name", Json::text(name.as_str()));
    add_member(&mut m, "port", Json::Uint(port as u64));
    assert(members_list(m@) =~= presence_members(kind@, id@, name@, port));
    m
}

/// The bytes of a packet: compact JSON in UTF-8, its members in their order. It reads as the
/// packet's JSON.
pub fn packet_bytes(p: &Packet) -> (r: Vec<u8>)
    ensures
        r@ == vstd::utf8::encode_utf8(rendered_in_order(packet_members(p@))),
        parsed(rendered_in_order(packet_members(p@))) == Some(packet_json(p@)),
{
    let m = match p {
        Packet::Probe { id, name, port } => presence("probe", id, name, *port),
        Packet::Here { id, name, port } => presence("here", id, name, *port),
        Packet::Bye { id } => {
            let mut m: Vec<(String, Json)> = Vec::new();
            add_member(&mut m, "t", Json::text("bye"));
            add_member(&mut m, "id", Json::text(id.as_str()));
            assert(members_list(m@) =~= packet_members(p@));
            m
        },
    };
    proof {
        assert(JsonView::Object(members_view(m@)) == packet_json(p@));
        assert(readable(packet_json(p@), max_depth())) by {
            reveal_with_fuel(readable, 2);
        }
        member_names_differ();
        assert forall|i: int, j: int| 0 <= i < j < m@.len() implies (#[trigger] m@[i]).0@ != (
        #[trigger] m@[j]).0@ by {
            assert(members_list(m@).len() == m@.len());
            assert(packet_members(p@)[i].0 == m@[i].0@);
            assert(packet_members(p@)[j].0 == m@[j].0@);
        }
    }
    to_text_in_order(m).as_str().as_bytes_vec()
}

/// The node's announcement of itself.
pub fn here_packet(shared: &Shared) -> (p: Packet)
    ensures
        p@ == shared@.here(),
{
    Packet::Here {
        id: copy(shared.id.as_str()),
        name: copy(shared.name.as_str()),
        port: shared.tcp_port,
    }
}

/// The place of the first peer with an id, or the length of the list where there is none.
fn place_of(peers: &Vec<PeerInfo>, id: &str) -> (r: usize)
    ensures
        r <= peers@.len(),
        r < peers@.len() ==> peers_view(peers@)[r as int].id == id@,
        forall|k: int| 0 <= k < r ==> (#[trigger] peers_view(peers@)[k]).id != id@,
{
    let mut i: usize = 0;
    while i < peers.len() && !same(peers[i].id.as_str(), id)
        invariant
            i <= peers@.len(),
            forall|k: int| 0 <= k < i ==> (#[trigger] peers_view(peers@)[k]).id != id@,
        decreases peers.len() - i,
    {
        i = i + 1;
    }
    i
}

/// Takes in news of a peer.
pub fn upsert_peer(
    shared: &mut Shared,
    id: String,
    name: String,
    addr: String,
    tcp_port: u16,
    rtt: Option<u64>,
    now: u64,
)
    ensures
        final(shared)@ == (SharedView {
            peers: heard(
                old(shared)@.peers,
                PeerView {
                    id: id@,
                    name: name@,
                    addr: addr@,
                    tcp_port,
                    last_seen: now,
                    rtt_micros: rtt,
                },
            ),
            ..old(shared)@
        }),
{
    let ghost news = PeerView {
        id: id@,
        name: name@,
        addr: addr@,
        tcp_port,
        last_seen: now,
        rtt_micros: rtt,
    };
    let ghost before = shared@.peers;
    let i = place_of(&shared.peers, id.as_str());
    let mut peer = PeerInfo { id, name, addr, tcp_port, last_seen: now, rtt_micros: rtt };
    proof {
        let j = heard_shape(before, news);
        assert(i < j ==> before[i as int].id != news.id);
        assert(j < i ==> before[j].id != news.id);
    }
    if i < shared.peers.len() {
        if peer.rtt_micros.is_none() {
            peer.rtt_micros = shared.peers[i].rtt_micros;
        }
        shared.peers[i] = peer;
    } else {
        shared.peers.push(peer);
    }
    assert(shared@.peers =~= heard(before, news));
}

/// Takes the peer that has gone out of a list.
fn without(peers: Vec<PeerInfo>, id: &str) -> (r: Vec<PeerInfo>)
    ensures
        peers_view(r@) == departed(peers_view(peers@), id@),
{
    let ghost all = peers_view(peers@);
    let mut kept: Vec<PeerInfo> = Vec::new();
    assert(peers_view(kept@) =~= Seq::empty());
    assert(all.take(0) =~= Seq::empty());
    assert(departed(all.take(0), id@) =~= Seq::empty()) by {
        reveal(Seq::filter);
    }
    for p in it: peers
        invariant
            it.seq() == peers@,
            all == peers_view(peers@),
            peers_view(kept@) == departed(all.take(it.index() as int), id@),
    {
        let ghost k = it.index() as int;
        let ghost before = kept@;
        proof {
            assert(all.take(k + 1) =~= all.take(k).push(p@));
            all.take(k).lemma_filter_push(p@, |p: PeerView| p.id != id@);
        }
        if !same(p.id.as_str(), id) {
            kept.push(p);
            assert(peers_view(kept@) =~= peers_view(before).push(p@));
        }
    }
    assert(all.take(all.len() as int) =~= all);
    kept
}

/// Takes the peers that were not heard of for too long out of a list.
fn without_stale(peers: Vec<PeerInfo>, now: u64) -> (r: Vec<PeerInfo>)
    ensures
        peers_view(r@) == recent(peers_view(peers@), now),
{
    let ghost all = peers_view(peers@);
    let mut kept: Vec<PeerInfo> = Vec::new();
    assert(peers_view(kept@) =~= Seq::empty());
    assert(all.take(0) =~= Seq::empty());
    assert(recent(all.take(0), now) =~= Seq::empty()) by {
        reveal(Seq::filter);
    }
    for p in it: peers
        invariant
            it.seq() == peers@,
            all == peers_view(peers@),
            peers_view(kept@) == recent(all.take(it.index() as int), now),
    {
        let ghost k = it.index() as int;
        let ghost before = kept@;
        proof {
            assert(all.take(k + 1) =~= all.take(k).push(p@));
            all.take(k).lemma_filter_push(
                p@,
                |p: PeerView| elapsed(p.last_seen, now) < PEER_STALE_AFTER,
            );
        }
        if elapsed_nanos(p.last_seen, now) < PEER_STALE_AFTER {
            kept.push(p);
            assert(peers_view(kept@) =~= peers_view(before).push(p@));
        }
    }
    assert(all.take(all.len() as int) =~= all);
    kept
}

/// Drops the peers that were not heard of for too long.
pub fn drop_stale(shared: &mut Shared, now: u64)
    ensures
        final(shared)@ == (SharedView {
            peers: recent(old(shared)@.peers, now),
            ..old(shared)@
        }),
{
    let mut peers: Vec<PeerInfo> = Vec::new();
    std::mem::swap(&mut peers, &mut shared.peers);
    shared.peers = without_stale(peers, now);
}

/// Reacts to a packet from `src`: answers probes, learns peers, drops the departed. The
/// node's own probes and announcements, which it hears too, are passed over.
pub fn discovery_listener(shared: &mut Shared, pkt: Packet, src: &str, now: u64) -> (r: Option<
    Packet,
>)
    ensures
        final(shared)@ == received(old(shared)@, pkt@, src@, now).0,
        answer_view(r) == received(old(shared)@, pkt@, src@, now).1,
{
    match pkt {
        Packet::Probe { id, name, port } => {
            if same(id.as_str(), shared.id.as_str()) {
                return None;
            }
            upsert_peer(shared, id, name, copy(src), port, None, now);
            Some(here_packet(shared))
        },
        Packet::Here { id, name, port } => {
            if same(id.as_str(), shared.id.as_str()) {
                return None;
            }
            let rtt = match shared.last_probe_at {
                Some(t) => if elapsed_nanos(t, now) < PROBE_ANSWERED_WITHIN {
                    Some(elapsed_nanos(t, now) / 1000)
                } else {
                    None
                },
                None => None,
            };
            upsert_peer(shared, id, name, copy(src), port, rtt, now);
            None
        },
        Packet::Bye { id } => {
            let mut peers: Vec<PeerInfo> = Vec::new();
            std::mem::swap(&mut peers, &mut shared.peers);
            shared.peers = without(peers, id.as_str());
            None
        },
    }
}

/// Makes the node's probe, and notes when it is sent.
pub fn send_probe(shared: &mut Shared, now: u64) -> (p: Packet)
    ensures
        p@ == old(shared)@.probe(),
        final(shared)@ == (SharedView { last_probe_at: Some(now), ..old(shared)@ }),
{
    shared.last_probe_at = Some(now);
    Packet::Probe {
        id: copy(shared.id.as_str()),
        name: copy(shared.name.as_str()),
        port: shared.tcp_port,
    }
}

/// Makes the node's farewell.
pub fn send_bye(shared: &Shared) -> (p: Packet)
    ensures
        p@ == shared@.bye(),
{
    Packet::Bye { id: copy(shared.id.as_str()) }
}

/// What has happened to a node that announces itself.
pub enum AnnounceEvent {
    /// It has come up.
    Started,
    /// Its probe has been sent.
    Probed,
    /// It has slept.
    Woke,
    /// Its announcement has been sent.
    Announced,
}

/// What a node that announces itself does next.
pub enum AnnounceAction {
    /// Send the probe to all.
    Probe(Packet),
    /// Send the announcement to all.
    Announce(Packet),
    /// Wait for so many milliseconds.
    Sleep(u64),
}

/// What an [`AnnounceAction`] holds.
pub enum AnnounceView {
    Probe(PacketView),
    Announce(PacketView),
    Sleep(u64),
}

impl View for AnnounceAction {
    type V = AnnounceView;

    open spec fn view(&self) -> AnnounceView {
        match self {
            AnnounceAction::Probe(p) => AnnounceView::Probe(p@),
            AnnounceAction::Announce(p) => AnnounceView::Announce(p@),
            AnnounceAction::Sleep(ms) => AnnounceView::Sleep(*ms),
        }
    }
}

/// What announcing does at an event: the node after it, and what comes next. A probe
/// comes first, so that the peers that are up answer at once; then, for ever, a wait, an
/// announcement, and the stale peers are dropped.
pub open spec fn announced(s: SharedView, event: AnnounceEvent, now: u64) -> (
    SharedView,
    AnnounceView,
) {
    match event {
        AnnounceEvent::Started => (
            SharedView { last_probe_at: Some(now), ..s },
            AnnounceView::Probe(s.probe()),
        ),
        AnnounceEvent::Probed => (s, AnnounceView::Sleep(ANNOUNCE_EVERY)),
        AnnounceEvent::Woke => (s, AnnounceView::Announce(s.here())),
        AnnounceEvent::Announced => (
            SharedView { peers: recent(s.peers, now), ..s },
            AnnounceView::Sleep(ANNOUNCE_EVERY),
        ),
    }
}

/// Keeps the peer table warm: announces presence periodically, drops the stale.
pub fn announce_loop(shared: &mut Shared, event: AnnounceEvent, now: u64) -> (r: AnnounceAction)
    ensures
        final(shared)@ == announced(old(shared)@, event, now).0,
        r@ == announced(old(shared)@, event, now).1,
{
    match event {
        AnnounceEvent::Started => AnnounceAction::Probe(send_probe(shared, now)),
        AnnounceEvent::Probed => AnnounceAction::Sleep(ANNOUNCE_EVERY),
        AnnounceEvent::Woke => AnnounceAction::Announce(here_packet(shared)),
        AnnounceEvent::Announced => {
            drop_stale(shared, now);
            AnnounceAction::Sleep(ANNOUNCE_EVERY)
        },
    }
}

/// The event that comes of doing an action.
pub open spec fn done(action: AnnounceView) -> AnnounceEvent {
    match action {
        AnnounceView::Probe(_) => AnnounceEvent::Probed,
        AnnounceView::Announce(_) => AnnounceEvent::Announced,
        AnnounceView::Sleep(_) => AnnounceEvent::Woke,
    }
}

/// The event at which a node that announces itself takes step `i`, where it is what
/// `moments` say, and at the instants that they say, from one step to the next.
pub open spec fn event_at(moments: Seq<(SharedView, u64)>, i: nat) -> AnnounceEvent
    decreases i,
{
    if i == 0 {
        AnnounceEvent::Started
    } else {
        let before = (i - 1) as nat;
        let (s, now) = moments[before as int];
        done(announced(s, event_at(moments, before), now).1)
    }
}

/// What a node that announces itself does in step `i`.
pub open spec fn action_at(moments: Seq<(SharedView, u64)>, i: nat) -> AnnounceView {
    announced(moments[i as int].0, event_at(moments, i), moments[i as int].1).1
}

/// A node sends one probe first; from then on it sends one announcement for every wait of
/// five seconds, whatever else happens to it.
pub proof fn announces_once_per_wait(moments: Seq<(SharedView, u64)>, i: nat)
    ensures
        action_at(moments, 0) == AnnounceView::Probe(moments[0].0.probe()),
        i % 2 == 1 ==> action_at(moments, i) == AnnounceView::Sleep(5000),
        i > 0 && i % 2 == 0 ==> action_at(moments, i) == AnnounceView::Announce(
            moments[i as int].0.here(),
        ),
    decreases i,
{
    if i > 0 {
        announces_once_per_wait(moments, (i - 1) as nat);
        assert(event_at(moments, i) == done(action_at(moments, (i - 1) as nat)));
    }
}

}
