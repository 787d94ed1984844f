//! What the tools do: tell who this node is, list its peers, find the peers that a message
//! is for, and hand out the messages that have come.
use crate::json::add_item;
use crate::json::add_member;
use crate::json::from_tenths;
use crate::json::list_view;
use crate::json::tenths_json;
use crate::json::Json;
use crate::json::JsonView;
use crate::mcp::CallView;
use crate::mcp::ToolCall;
use crate::net::MCAST_GROUP;
use crate::state::elapsed;
use crate::state::elapsed_nanos;
use crate::state::inbox_view;
use crate::state::option_view;
use crate::state::peers_view;
use crate::state::InboxMsg;
use crate::state::InboxView;
use crate::state::PeerInfo;
use crate::state::PeerView;
use crate::state::Shared;
use crate::state::SharedView;
use crate::text::at_most;
use crate::text::copy;
use crate::text::join;
use crate::text::same;
use crate::text::starts_with;
use crate::text::text_le;
use vstd::prelude::*;
use vstd::string::*;

verus! {

/// The ceiling on the scan for a peer that is not known, in milliseconds.
pub const SEND_SCAN_WAIT: u64 = 350;

/// How long `lan_inbox` waits at most, in milliseconds.
pub const INBOX_WAIT_MAX: u64 = 25_000;

/// The reply of `lan_whoami`.
pub open spec fn identity(s: SharedView, port: u16, ip: Option<Seq<char>>) -> JsonView {
    JsonView::Object(
        map![
            "id"@ => JsonView::Text(s.id),
            "name"@ => JsonView::Text(s.name),
            "ip"@ => match ip {
                Some(ip) => JsonView::Text(ip),
                None => JsonView::Null,
            },
            "tcp_port"@ => JsonView::Int(s.tcp_port as int),
            "discovery_port"@ => JsonView::Int(port as int),
            "multicast_group"@ => JsonView::Text(MCAST_GROUP@),
        ],
    )
}

/// Tells who this node is; `ip` is its address on the LAN, where it is known.
pub fn whoami(shared: &Shared, port: u16, ip: Option<String>) -> (r: Json)
    ensures
        r@ == identity(shared@, port, option_view(ip)),
{
    let mut m: Vec<(String, Json)> = Vec::new();
    add_member(&mut m, "id", Json::text(shared.id.as_str()));
    add_member(&mut m, "name", Json::text(shared.name.as_str()));
    let ip = match ip {
        Some(ip) => Json::Text(ip),
        None => Json::Null,
    };
    add_member(&mut m, "ip", ip);
    add_member(&mut m, "tcp_port", Json::Uint(shared.tcp_port as u64));
    add_member(&mut m, "discovery_port", Json::Uint(port as u64));
    add_member(&mut m, "multicast_group", Json::text(MCAST_GROUP));
    Json::Object(m)
}

/// How many times `unit` goes into `n`, to the nearest whole number, halves upwards.
pub open spec fn nearest(n: nat, unit: nat) -> nat {
    n / unit + if 2 * (n % unit) >= unit {
        1nat
    } else {
        0
    }
}

/// How many times `unit` goes into `n`, to the nearest whole number.
pub fn round(n: u64, unit: u64) -> (r: u64)
    requires
        unit > 0,
    ensures
        r == nearest(n as nat, unit as nat),
{
    let rest: u64 = n % unit;
    if rest >= unit - rest {
        assert(n / unit < u64::MAX) by (nonlinear_arith)
            requires
                2 <= unit,
        ;
        n / unit + 1
    } else {
        n / unit
    }
}

/// A time in microseconds as milliseconds, to the nearest tenth.
pub open spec fn micros_json(micros: u64) -> JsonView {
    tenths_json(nearest(micros as nat, 100))
}

/// A peer as `lan_peers` lists it, with its round-trip time and the time since it was last
/// heard of as they are given.
pub open spec fn listed(p: PeerView, rtt_ms: JsonView, last_seen_secs_ago: JsonView) -> JsonView {
    JsonView::Object(
        map![
            "id"@ => JsonView::Text(p.id),
            "name"@ => JsonView::Text(p.name),
            "ip"@ => JsonView::Text(p.addr),
            "tcp_port"@ => JsonView::Int(p.tcp_port as int),
            "rtt_ms"@ => rtt_ms,
            "last_seen_secs_ago"@ => last_seen_secs_ago,
        ],
    )
}

/// A peer as `lan_peers` lists it: its round-trip time in milliseconds and the seconds
/// since it was last heard of, each to the nearest tenth.
pub open spec fn peer_json(p: PeerView, now: u64) -> JsonView {
    listed(
        p,
        match p.rtt_micros {
            Some(micros) => micros_json(micros),
            None => JsonView::Null,
        },
        tenths_json(nearest(elapsed(p.last_seen, now) as nat, 100_000_000)),
    )
}

/// A peer as `lan_peers` lists it, with these two times.
pub fn peer_entry(p: &PeerInfo, rtt_ms: Json, last_seen_secs_ago: Json) -> (r: Json)
    ensures
        r@ == listed(p@, rtt_ms@, last_seen_secs_ago@),
{
    let mut m: Vec<(String, Json)> = Vec::new();
    add_member(&mut m, "id", Json::text(p.id.as_str()));
    add_member(&mut m, "name", Json::text(p.name.as_str()));
    add_member(&mut m, "ip", Json::text(p.addr.as_str()));
    add_member(&mut m, "tcp_port", Json::Uint(p.tcp_port as u64));
    add_member(&mut m, "rtt_ms", rtt_ms);
    add_member(&mut m, "last_seen_secs_ago", last_seen_secs_ago);
    Json::Object(m)
}

/// A peer as `lan_peers` lists it now.
fn entry_now(p: &PeerInfo, now: u64) -> (r: Json)
    ensures
        r@ == peer_json(p@, now),
{
    let rtt = match p.rtt_micros {
        Some(micros) => from_tenths(round(micros, 100)),
        None => Json::Null,
    };
    let ago = from_tenths(round(elapsed_nanos(p.last_seen, now), 100_000_000));
    peer_entry(p, rtt, ago)
}

/// Whether peers are in the order of their names.
pub open spec fn by_name(s: Seq<PeerView>) -> bool {
    forall|i: int, j: int|
        0 <= i <= j < s.len() ==> text_le((#[trigger] s[i]).name, (#[trigger] s[j]).name)
}

/// A list as the tools report it: how many items there are, and the items under a name.
pub open spec fn report(name: Seq<char>, items: Seq<JsonView>) -> JsonView {
    JsonView::Object(
        map!["count"@ => JsonView::Int(items.len() as int), name => JsonView::List(items)],
    )
}

/// Whether `j` is what `lan_peers` replies: each peer once, in the order of their names.
pub open spec fn lists_peers(j: JsonView, peers: Seq<PeerView>, now: u64) -> bool {
    exists|order: Seq<PeerView>| #[trigger]
        by_name(order) && order.to_multiset() == peers.to_multiset() && j == report(
            "peers"@,
            order.map_values(|p: PeerView| peer_json(p, now)),
        )
}

/// What a list of peers, by reference, holds.
spec fn refs_view(s: Seq<&PeerInfo>) -> Seq<PeerView> {
    s.map_values(|p: &PeerInfo| p@)
}

/// Puts a peer into an ordered list, behind those whose names are not greater.
fn put_in_order<'a>(order: &mut Vec<&'a PeerInfo>, p: &'a PeerInfo)
    requires
        by_name(refs_view(old(order)@)),
    ensures
        by_name(refs_view(final(order)@)),
        refs_view(final(order)@).to_multiset() == refs_view(old(order)@).to_multiset().insert(p@),
{
    let ghost before = refs_view(order@);
    let mut i: usize = order.len();
    while i > 0 && !at_most(order[i - 1].name.as_str(), p.name.as_str())
        invariant
            i <= order@.len(),
            before == refs_view(order@),
            forall|k: int| i <= k < before.len() ==> !text_le((#[trigger] before[k]).name, p@.name),
        decreases i,
    {
        assert(before[i - 1] == order@[i - 1]@);
        i = i - 1;
    }
    order.insert(i, p);
    proof {
        let after = refs_view(order@);
        assert(after =~= before.insert(i as int, p@));
        vstd::seq_lib::to_multiset_insert(before, i as int, p@);
        assert forall|a: int, b: int| 0 <= a <= b < after.len() implies text_le(
            (#[trigger] after[a]).name,
            (#[trigger] after[b]).name,
        ) by {
            if a == b {
                crate::text::text_le_total(after[a].name, after[a].name);
            } else if b < i {
                assert(after[a] == before[a] && after[b] == before[b]);
            } else if a > i {
                assert(after[a] == before[a - 1] && after[b] == before[b - 1]);
            } else if a == i {
                assert(after[b] == before[b - 1]);
                crate::text::text_le_total(before[b - 1].name, p@.name);
            } else if b == i {
                assert(after[a] == before[a]);
                assert(text_le(before[a].name, before[i - 1].name));
                crate::text::text_le_transitive(before[a].name, before[i - 1].name, p@.name);
            } else {
                assert(after[a] == before[a] && after[b] == before[b - 1]);
            }
        }
    }
}

/// Lists the peers in the order of their names.
pub fn peers_json(shared: &Shared, now: u64) -> (r: Json)
    ensures
        lists_peers(r@, shared@.peers, now),
{
    let mut order: Vec<&PeerInfo> = Vec::new();
    let mut i: usize = 0;
    let ghost all = shared@.peers;
    assert(refs_view(order@) =~= Seq::empty());
    assert(all.take(0) =~= Seq::empty());
    while i < shared.peers.len()
        invariant
            i <= shared.peers@.len(),
            all == peers_view(shared.peers@),
            by_name(refs_view(order@)),
            refs_view(order@).to_multiset() == all.take(i as int).to_multiset(),
        decreases shared.peers.len() - i,
    {
        put_in_order(&mut order, &shared.peers[i]);
        proof {
            all.take(i as int).to_multiset_ensures();
            assert(all.take(i + 1) =~= all.take(i as int).push(all[i as int]));
        }
        i = i + 1;
    }
    assert(all.take(all.len() as int) =~= all);
    let ghost sorted = refs_view(order@);
    let mut list: Vec<Json> = Vec::new();
    let mut k: usize = 0;
    while k < order.len()
        invariant
            k <= order@.len(),
            sorted == refs_view(order@),
            list_view(list@) =~= sorted.take(k as int).map_values(|p: PeerView| peer_json(p, now)),
        decreases order.len() - k,
    {
        add_item(&mut list, entry_now(order[k], now));
        assert(sorted[k as int] == order@[k as int]@);
        k = k + 1;
    }
    assert(sorted.take(sorted.len() as int) =~= sorted);
    report_json("peers", list)
}

/// A list as the tools report it.
fn report_json(name: &str, items: Vec<Json>) -> (r: Json)
    ensures
        r@ == report(name@, list_view(items@)),
{
    proof {
        list_view_len(items@);
    }
    let mut m: Vec<(String, Json)> = Vec::new();
    add_member(&mut m, "count", Json::Uint(items.len() as u64));
    add_member(&mut m, name, Json::List(items));
    Json::Object(m)
}

proof fn list_view_len(s: Seq<Json>)
    ensures
        list_view(s).len() == s.len(),
    decreases s.len(),
{
    if s.len() > 0 {
        list_view_len(s.drop_last());
    }
}

/// Where a message goes: a peer by name, and its address.
pub struct Target {
    pub name: String,
    pub addr: String,
    pub port: u16,
}

/// What a [`Target`] holds.
pub struct TargetView {
    pub name: Seq<char>,
    pub addr: Seq<char>,
    pub port: u16,
}

impl View for Target {
    type V = TargetView;

    open spec fn view(&self) -> TargetView {
        TargetView { name: self.name@, addr: self.addr@, port: self.port }
    }
}

/// What a list of targets holds.
pub open spec fn targets_view(s: Seq<Target>) -> Seq<TargetView> {
    s.map_values(|t: Target| t@)
}

/// The peer as a target.
pub open spec fn target(p: PeerView) -> TargetView {
    TargetView { name: p.name, addr: p.addr, port: p.tcp_port }
}

/// Whether a message to `to` is for all peers.
pub open spec fn to_all(to: Seq<char>) -> bool {
    to == "all"@ || to == "*"@
}

/// The peers whose id or whole name is `to`.
pub open spec fn called(peers: Seq<PeerView>, to: Seq<char>) -> Seq<PeerView> {
    peers.filter(|p: PeerView| p.id == to || p.name == to)
}

/// The peers whose names start with `to`.
pub open spec fn prefixed(peers: Seq<PeerView>, to: Seq<char>) -> Seq<PeerView> {
    peers.filter(|p: PeerView| to.is_prefix_of(p.name))
}

/// Where a message to `to` goes: to all peers; or to the first one whose id or whole name
/// it is; or, where there is none, to the only one whose name starts with it; or nowhere.
pub open spec fn resolved(peers: Seq<PeerView>, to: Seq<char>) -> Seq<TargetView> {
    if to_all(to) {
        peers.map_values(|p: PeerView| target(p))
    } else if called(peers, to).len() > 0 {
        seq![target(called(peers, to)[0])]
    } else if prefixed(peers, to).len() == 1 {
        seq![target(prefixed(peers, to)[0])]
    } else {
        Seq::empty()
    }
}

fn target_of(p: &PeerInfo) -> (r: Target)
    ensures
        r@ == target(p@),
{
    Target { name: copy(p.name.as_str()), addr: copy(p.addr.as_str()), port: p.tcp_port }
}

/// All peers as targets.
fn all_targets(peers: &Vec<PeerInfo>) -> (r: Vec<Target>)
    ensures
        targets_view(r@) == peers_view(peers@).map_values(|p: PeerView| target(p)),
{
    let mut list: Vec<Target> = Vec::new();
    let mut i: usize = 0;
    while i < peers.len()
        invariant
            i <= peers@.len(),
            targets_view(list@) =~= peers_view(peers@).take(i as int).map_values(
                |p: PeerView| target(p),
            ),
        decreases peers.len() - i,
    {
        let ghost before = list@;
        list.push(target_of(&peers[i]));
        assert(targets_view(list@) =~= targets_view(before).push(target(peers@[i as int]@)));
        i = i + 1;
    }
    assert(peers_view(peers@).take(peers@.len() as int) =~= peers_view(peers@));
    list
}

/// The places of the peers that a message to `to` may be for, by id or whole name, or else
/// by the start of the name.
fn matching(peers: &Vec<PeerInfo>, to: &str, whole: bool) -> (r: Vec<usize>)
    ensures
        forall|k: int| 0 <= k < r@.len() ==> (#[trigger] r@[k]) < peers@.len(),
        r@.map_values(|i: usize| peers_view(peers@)[i as int]) == if whole {
            called(peers_view(peers@), to@)
        } else {
            prefixed(peers_view(peers@), to@)
        },
{
    let ghost all = peers_view(peers@);
    let ghost pick = |p: PeerView|
        if whole {
            p.id == to@ || p.name == to@
        } else {
            to@.is_prefix_of(p.name)
        };
    let mut found: Vec<usize> = Vec::new();
    let mut i: usize = 0;
    assert(all.take(0).filter(pick) =~= Seq::empty()) by {
        reveal(Seq::filter);
    }
    while i < peers.len()
        invariant
            i <= peers@.len(),
            all == peers_view(peers@),
            pick == (|p: PeerView|
                if whole {
                    p.id == to@ || p.name == to@
                } else {
                    to@.is_prefix_of(p.name)
                }),
            forall|k: int| 0 <= k < found@.len() ==> (#[trigger] found@[k]) < peers@.len(),
            found@.map_values(|i: usize| all[i as int]) =~= all.take(i as int).filter(pick),
        decreases peers.len() - i,
    {
        proof {
            assert(all.take(i + 1) =~= all.take(i as int).push(all[i as int]));
            all.take(i as int).lemma_filter_push(all[i as int], pick);
        }
        let p = &peers[i];
        let hit = if whole {
            same(p.id.as_str(), to) || same(p.name.as_str(), to)
        } else {
            starts_with(p.name.as_str(), to)
        };
        assert(all[i as int] == p@);
        if hit {
            found.push(i);
        }
        i = i + 1;
    }
    proof {
        assert(all.take(all.len() as int) =~= all);
        if whole {
            assert(pick =~= (|p: PeerView| p.id == to@ || p.name == to@));
        } else {
            assert(pick =~= (|p: PeerView| to@.is_prefix_of(p.name)));
        }
    }
    found
}

/// Finds where a message to `to` goes. The start of a name is enough where only one peer's
/// name has it, so that "alpha" finds "alpha-3f2c".
pub fn resolve(shared: &Shared, to: &str) -> (r: Vec<Target>)
    ensures
        targets_view(r@) == resolved(shared@.peers, to@),
{
    let ghost all = shared@.peers;
    if same(to, "all") || same(to, "*") {
        return all_targets(&shared.peers);
    }
    let mut list: Vec<Target> = Vec::new();
    let exact = matching(&shared.peers, to, true);
    let ghost exact_peers = exact@.map_values(|i: usize| all[i as int]);
    if exact.len() > 0 {
        assert(exact_peers[0] == all[exact@[0] as int]);
        list.push(target_of(&shared.peers[exact[0]]));
        assert(targets_view(list@) =~= resolved(all, to@));
        return list;
    }
    let starts = matching(&shared.peers, to, false);
    let ghost start_peers = starts@.map_values(|i: usize| all[i as int]);
    if starts.len() == 1 {
        assert(start_peers[0] == all[starts@[0] as int]);
        list.push(target_of(&shared.peers[starts[0]]));
    }
    assert(targets_view(list@) =~= resolved(all, to@));
    list
}

/// What comes next in sending a message with `lan_send`.
pub enum SendStep {
    /// It cannot be sent, and why.
    Fail(String),
    /// Scan the LAN first, with this ceiling in milliseconds.
    Scan(u64),
    /// Deliver the message to each of the targets in turn.
    Deliver { targets: Vec<Target>, message: String },
}

/// What a [`SendStep`] holds.
pub enum SendStepView {
    Fail(Seq<char>),
    Scan(u64),
    Deliver { targets: Seq<TargetView>, message: Seq<char> },
}

impl View for SendStep {
    type V = SendStepView;

    open spec fn view(&self) -> SendStepView {
        match self {
            SendStep::Fail(why) => SendStepView::Fail(why@),
            SendStep::Scan(ms) => SendStepView::Scan(*ms),
            SendStep::Deliver { targets, message } => SendStepView::Deliver {
                targets: targets_view(targets@),
                message: message@,
            },
        }
    }
}

/// What comes next in sending a message. Both arguments must be there. A message to
/// somebody unknown has the LAN scanned, once; if that finds nobody, it cannot be sent.
pub open spec fn sending_to(
    peers: Seq<PeerView>,
    to: Option<Seq<char>>,
    message: Option<Seq<char>>,
    scanned: bool,
) -> SendStepView {
    match (to, message) {
        (None, _) => SendStepView::Fail("missing required argument 'to'"@),
        (Some(_), None) => SendStepView::Fail("missing required argument 'message'"@),
        (Some(to), Some(message)) => if resolved(peers, to).len() > 0 {
            SendStepView::Deliver { targets: resolved(peers, to), message }
        } else if !scanned {
            SendStepView::Scan(SEND_SCAN_WAIT)
        } else {
            SendStepView::Fail(
                "no peer matching '"@ + to + "' found on the LAN (try lan_discover)"@,
            )
        },
    }
}

/// Sends a message, step by step: says what to do next, before a scan of the LAN or after
/// it.
pub fn send_tool(
    shared: &Shared,
    to: &Option<String>,
    message: &Option<String>,
    scanned: bool,
) -> (r: SendStep)
    ensures
        r@ == sending_to(shared@.peers, option_view(*to), option_view(*message), scanned),
{
    match to {
        None => SendStep::Fail(copy("missing required argument 'to'")),
        Some(to) => match message {
            None => SendStep::Fail(copy("missing required argument 'message'")),
            Some(message) => {
                let targets = resolve(shared, to.as_str());
                assert(targets_view(targets@).len() == targets@.len());
                if targets.len() > 0 {
                    SendStep::Deliver { targets, message: copy(message.as_str()) }
                } else if !scanned {
                    SendStep::Scan(SEND_SCAN_WAIT)
                } else {
                    SendStep::Fail(
                        join(
                            join("no peer matching '", to.as_str()).as_str(),
                            "' found on the LAN (try lan_discover)",
                        ),
                    )
                }
            },
        },
    }
}

/// How the delivery of a message to a peer went: the round-trip time in microseconds, or
/// why it failed.
pub struct Delivery {
    pub peer: String,
    pub outcome: Result<u64, String>,
}

/// A delivery that succeeded, as `lan_send` reports it, with its round-trip time as it is
/// given.
pub open spec fn delivered(peer: Seq<char>, rtt_ms: JsonView) -> JsonView {
    JsonView::Object(
        map![
            "peer"@ => JsonView::Text(peer),
            "delivered"@ => JsonView::Bool(true),
            "rtt_ms"@ => rtt_ms,
        ],
    )
}

/// A delivery that failed, as `lan_send` reports it.
pub open spec fn undelivered(peer: Seq<char>, why: Seq<char>) -> JsonView {
    JsonView::Object(
        map![
            "peer"@ => JsonView::Text(peer),
            "delivered"@ => JsonView::Bool(false),
            "error"@ => JsonView::Text(why),
        ],
    )
}

/// A delivery as `lan_send` reports it.
pub open spec fn delivery_json(d: Delivery) -> JsonView {
    match d.outcome {
        Ok(micros) => delivered(d.peer@, micros_json(micros)),
        Err(why) => undelivered(d.peer@, why@),
    }
}

/// A delivery that succeeded, with this round-trip time.
pub fn delivered_entry(peer: String, rtt_ms: Json) -> (r: Json)
    ensures
        r@ == delivered(peer@, rtt_ms@),
{
    let mut m: Vec<(String, Json)> = Vec::new();
    add_member(&mut m, "peer", Json::Text(peer));
    add_member(&mut m, "delivered", Json::Bool(true));
    add_member(&mut m, "rtt_ms", rtt_ms);
    Json::Object(m)
}

/// A delivery that failed.
fn undelivered_entry(peer: String, why: String) -> (r: Json)
    ensures
        r@ == undelivered(peer@, why@),
{
    let mut m: Vec<(String, Json)> = Vec::new();
    add_member(&mut m, "peer", Json::Text(peer));
    add_member(&mut m, "delivered", Json::Bool(false));
    add_member(&mut m, "error", Json::Text(why));
    Json::Object(m)
}

fn delivery_entry(d: Delivery) -> (r: Json)
    ensures
        r@ == delivery_json(d),
{
    match d.outcome {
        Ok(micros) => delivered_entry(d.peer, from_tenths(round(micros, 100))),
        Err(why) => undelivered_entry(d.peer, why),
    }
}

/// The reply of `lan_send`: each delivery in turn.
pub open spec fn deliveries_json(deliveries: Seq<Delivery>) -> JsonView {
    JsonView::Object(
        map![
            "results"@ => JsonView::List(deliveries.map_values(|d: Delivery| delivery_json(d))),
        ],
    )
}

/// Reports the deliveries of a message.
pub fn send_report(deliveries: Vec<Delivery>) -> (r: Json)
    ensures
        r@ == deliveries_json(deliveries@),
{
    let mut list: Vec<Json> = Vec::new();
    for d in it: deliveries
        invariant
            it.seq() == deliveries@,
            list_view(list@) =~= deliveries@.take(it.index() as int).map_values(
                |d: Delivery| delivery_json(d),
            ),
    {
        add_item(&mut list, delivery_entry(d));
    }
    assert(deliveries@.take(deliveries@.len() as int) =~= deliveries@);
    let mut m: Vec<(String, Json)> = Vec::new();
    add_member(&mut m, "results", Json::List(list));
    Json::Object(m)
}

/// A message as `lan_inbox` hands it out.
pub open spec fn message_json(m: InboxView) -> JsonView {
    JsonView::Object(
        map![
            "from"@ => JsonView::Text(m.from_name),
            "from_id"@ => JsonView::Text(m.from_id),
            "from_ip"@ => JsonView::Text(m.from_addr),
            "body"@ => JsonView::Text(m.body),
            "received_unix_ms"@ => JsonView::Int(m.received_unix_ms as int),
        ],
    )
}

fn message_entry(msg: InboxMsg) -> (r: Json)
    ensures
        r@ == message_json(msg@),
{
    let mut m: Vec<(String, Json)> = Vec::new();
    add_member(&mut m, "from", Json::Text(msg.from_name));
    add_member(&mut m, "from_id", Json::Text(msg.from_id));
    add_member(&mut m, "from_ip", Json::Text(msg.from_addr));
    add_member(&mut m, "body", Json::Text(msg.body));
    add_member(&mut m, "received_unix_ms", Json::Uint(msg.received_unix_ms));
    Json::Object(m)
}

/// What comes next in reading the messages with `lan_inbox`.
pub enum InboxStep {
    /// Wait for a message, for so many nanoseconds at most.
    Wait(u64),
    /// Reply.
    Done(Json),
}

/// What an [`InboxStep`] holds.
pub enum InboxStepView {
    Wait(u64),
    Done(JsonView),
}

impl View for InboxStep {
    type V = InboxStepView;

    open spec fn view(&self) -> InboxStepView {
        match self {
            InboxStep::Wait(ms) => InboxStepView::Wait(*ms),
            InboxStep::Done(j) => InboxStepView::Done(j@),
        }
    }
}

/// The reply of `lan_inbox`: the messages, the oldest first.
pub open spec fn messages_json(inbox: Seq<InboxView>) -> JsonView {
    report("messages"@, inbox.map_values(|m: InboxView| message_json(m)))
}

/// How long a reader waits for a message in all, in nanoseconds.
pub open spec fn inbox_wait(wait_ms: u64) -> u64 {
    ((if wait_ms < INBOX_WAIT_MAX {
        wait_ms
    } else {
        INBOX_WAIT_MAX
    }) * 1_000_000) as u64
}

/// How many nanoseconds are left of that wait.
pub open spec fn wait_left(wait_ms: u64, started: u64, now: u64) -> u64 {
    if elapsed(started, now) < inbox_wait(wait_ms) {
        (inbox_wait(wait_ms) - elapsed(started, now)) as u64
    } else {
        0
    }
}

/// What comes next in reading the messages: the node after it, and the step. Where there
/// is no message and time left to wait for one, it is waited for that long; else all
/// messages are handed out, and none is left.
pub open spec fn reading(s: SharedView, wait_ms: u64, started: u64, now: u64) -> (
    SharedView,
    InboxStepView,
) {
    if s.inbox.len() == 0 && wait_left(wait_ms, started, now) > 0 {
        (s, InboxStepView::Wait(wait_left(wait_ms, started, now)))
    } else {
        (
            SharedView { inbox: Seq::empty(), ..s },
            InboxStepView::Done(messages_json(s.inbox)),
        )
    }
}

/// The messages as JSON.
fn messages_list(msgs: Vec<InboxMsg>) -> (r: Vec<Json>)
    ensures
        list_view(r@) == inbox_view(msgs@).map_values(|m: InboxView| message_json(m)),
{
    let ghost all = inbox_view(msgs@);
    let mut list: Vec<Json> = Vec::new();
    for m in it: msgs
        invariant
            it.seq() == msgs@,
            all == inbox_view(msgs@),
            list_view(list@) =~= all.take(it.index() as int).map_values(
                |m: InboxView| message_json(m),
            ),
    {
        assert(all[it.index() as int] == m@);
        add_item(&mut list, message_entry(m));
    }
    assert(all.take(all.len() as int) =~= all);
    list
}

/// Reads and clears the messages, step by step: says what to do next. `started` is the
/// instant at which the reader came; it blocks until a message arrives or the time passes.
pub fn inbox_tool(shared: &mut Shared, wait_ms: u64, started: u64, now: u64) -> (r: InboxStep)
    ensures
        final(shared)@ == reading(old(shared)@, wait_ms, started, now).0,
        r@ == reading(old(shared)@, wait_ms, started, now).1,
{
    let ms: u64 = if wait_ms < INBOX_WAIT_MAX {
        wait_ms
    } else {
        INBOX_WAIT_MAX
    };
    let left: u64 = (ms * 1_000_000).saturating_sub(elapsed_nanos(started, now));
    assert(left == wait_left(wait_ms, started, now));
    if shared.inbox.len() == 0 && left > 0 {
        return InboxStep::Wait(left);
    }
    let mut msgs: Vec<InboxMsg> = Vec::new();
    std::mem::swap(&mut msgs, &mut shared.inbox);
    assert(shared@.inbox =~= Seq::empty());
    InboxStep::Done(report_json("messages", messages_list(msgs)))
}

/// What has happened to a call of a tool.
pub enum CallEvent {
    /// It has come in.
    Begin,
    /// The node's address on the LAN has been looked up.
    FoundIp(Option<String>),
    /// The LAN has been scanned.
    Scanned,
    /// The message has been sent to each target, and so it went.
    Sent(Vec<Delivery>),
    /// A message has been waited for: the time is up, or something came in.
    Waited,
}

/// What to do next about a call of a tool.
pub enum CallAction {
    /// Look up the node's address on the LAN.
    FindIp,
    /// Scan the LAN, with this ceiling in milliseconds.
    Scan(u64),
    /// Send a message to each target in turn.
    Deliver { targets: Vec<Target>, message: String },
    /// Wait for a message, for so many nanoseconds at most.
    Wait(u64),
    /// The tool has come to this.
    Finish(Result<Json, String>),
}

/// What a [`CallAction`] holds.
pub enum CallActionView {
    FindIp,
    Scan(u64),
    Deliver { targets: Seq<TargetView>, message: Seq<char> },
    Wait(u64),
    Finish(Result<JsonView, Seq<char>>),
}

impl View for CallAction {
    type V = CallActionView;

    open spec fn view(&self) -> CallActionView {
        match self {
            CallAction::FindIp => CallActionView::FindIp,
            CallAction::Scan(ms) => CallActionView::Scan(*ms),
            CallAction::Deliver { targets, message } => CallActionView::Deliver {
                targets: targets_view(targets@),
                message: message@,
            },
            CallAction::Wait(ms) => CallActionView::Wait(*ms),
            CallAction::Finish(Ok(j)) => CallActionView::Finish(Ok(j@)),
            CallAction::Finish(Err(why)) => CallActionView::Finish(Err(why@)),
        }
    }
}

/// The step of a call of `lan_send` that a step in sending is.
pub open spec fn send_action(step: SendStepView) -> CallActionView {
    match step {
        SendStepView::Fail(why) => CallActionView::Finish(Err(why)),
        SendStepView::Scan(ms) => CallActionView::Scan(ms),
        SendStepView::Deliver { targets, message } => CallActionView::Deliver { targets, message },
    }
}

/// The step of a call of `lan_inbox` that a step in reading is.
pub open spec fn inbox_action(step: InboxStepView) -> CallActionView {
    match step {
        InboxStepView::Wait(nanos) => CallActionView::Wait(nanos),
        InboxStepView::Done(j) => CallActionView::Finish(Ok(j)),
    }
}

/// Whether a call of a tool, at an event, leaves the node as `after` and does `action` next.
/// Each tool has its own events; at any other one it begins. Reading the messages goes by the
/// inbox and the clock alone.
pub open spec fn handles(
    before: SharedView,
    call: CallView,
    event: CallEvent,
    port: u16,
    started: u64,
    now: u64,
    after: SharedView,
    action: CallActionView,
) -> bool {
    match call {
        CallView::Whoami => after == before && action == match event {
            CallEvent::FoundIp(ip) => CallActionView::Finish(
                Ok(identity(before, port, option_view(ip))),
            ),
            _ => CallActionView::FindIp,
        },
        CallView::Discover(wait_ms) => after == before && match event {
            CallEvent::Scanned => action matches CallActionView::Finish(Ok(j)) && lists_peers(
                j,
                before.peers,
                now,
            ),
            _ => action == CallActionView::Scan(wait_ms),
        },
        CallView::Peers => after == before && (action matches CallActionView::Finish(Ok(j))
            && lists_peers(j, before.peers, now)),
        CallView::Send { to, message } => after == before && action == match event {
            CallEvent::Sent(deliveries) => CallActionView::Finish(
                Ok(deliveries_json(deliveries@)),
            ),
            _ => send_action(sending_to(before.peers, to, message, event is Scanned)),
        },
        CallView::Inbox(wait_ms) => {
            let (s, step) = reading(before, wait_ms, started, now);
            after == s && action == inbox_action(step)
        },
    }
}

/// Runs a tool, step by step: says what to do next after an event. `port` is the discovery
/// port, and `started` the instant at which the call came in.
pub fn handle_call(
    shared: &mut Shared,
    call: &ToolCall,
    event: CallEvent,
    port: u16,
    started: u64,
    now: u64,
) -> (r: CallAction)
    ensures
        handles(old(shared)@, call@, event, port, started, now, final(shared)@, r@),
{
    match call {
        ToolCall::Whoami => match event {
            CallEvent::FoundIp(ip) => CallAction::Finish(Ok(whoami(shared, port, ip))),
            _ => CallAction::FindIp,
        },
        ToolCall::Discover(wait_ms) => match event {
            CallEvent::Scanned => CallAction::Finish(Ok(peers_json(shared, now))),
            _ => CallAction::Scan(*wait_ms),
        },
        ToolCall::Peers => CallAction::Finish(Ok(peers_json(shared, now))),
        ToolCall::Send { to, message } => {
            let scanned = match &event {
                CallEvent::Scanned => true,
                _ => false,
            };
            match event {
                CallEvent::Sent(deliveries) => CallAction::Finish(Ok(send_report(deliveries))),
                _ => match send_tool(shared, to, message, scanned) {
                    SendStep::Fail(why) => CallAction::Finish(Err(why)),
                    SendStep::Scan(ms) => CallAction::Scan(ms),
                    SendStep::Deliver { targets, message } => CallAction::Deliver {
                        targets,
                        message,
                    },
                },
            }
        },
        ToolCall::Inbox(wait_ms) => match inbox_tool(shared, *wait_ms, started, now) {
            InboxStep::Wait(nanos) => CallAction::Wait(nanos),
            InboxStep::Done(j) => CallAction::Finish(Ok(j)),
        },
    }
}

}
