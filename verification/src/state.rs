//! What a node knows: who it is, the peers it has heard of, and the messages that
//! wait to be read. Instants are nanoseconds on a clock that never goes back;
//! addresses are IP addresses in their text form.
use crate::text::copy;
use crate::text::hex;
use crate::text::hex_text;
use crate::text::join;
use vstd::prelude::*;
use vstd::string::*;

verus! {

/// The standard library's reading of the wall clock.
#[verifier::external_type_specification]
#[verifier::external_body]
pub struct ExSystemTime(std::time::SystemTime);

/// What the standard library says of a clock reading before the one it is measured
/// from.
#[verifier::external_type_specification]
#[verifier::external_body]
pub struct ExSystemTimeError(std::time::SystemTimeError);

/// `SystemTime::now` of the standard library: the time, of which nothing is known
/// beforehand.
pub assume_specification[ std::time::SystemTime::now ]() -> std::time::SystemTime
;

/// What a reading of the clock is, measured by `SystemTime::duration_since` from the Unix
/// epoch: whole seconds and the nanoseconds beyond them; none for a reading before it.
pub uninterp spec fn clock_reading(t: std::time::SystemTime) -> Option<(u64, u32)>;

/// `SystemTime::duration_since` of the standard library, from the Unix epoch: whole
/// seconds and, as `Duration::subsec_nanos` has it, the nanoseconds beyond them, fewer
/// than a second's. A reading before the epoch is an error. Which of the two it is, and
/// the numbers, depend on the reading alone; what they are for a given one is not said.
#[verifier::external_body]
fn since_epoch(t: std::time::SystemTime) -> (r: Result<
    (u64, u32),
    std::time::SystemTimeError,
>)
    ensures
        r is Ok <==> clock_reading(t) is Some,
        r matches Ok(d) ==> clock_reading(t) == Some(d) && d.1 < 1_000_000_000,
{
    t.duration_since(std::time::UNIX_EPOCH).map(|d| (d.as_secs(), d.subsec_nanos()))
}

/// A peer as this node last heard of it.
pub struct PeerInfo {
    pub id: String,
    pub name: String,
    pub addr: String,
    pub tcp_port: u16,
    /// The instant of the last packet from the peer.
    pub last_seen: u64,
    pub rtt_micros: Option<u64>,
}

/// What a [`PeerInfo`] holds.
pub struct PeerView {
    pub id: Seq<char>,
    pub name: Seq<char>,
    pub addr: Seq<char>,
    pub tcp_port: u16,
    pub last_seen: u64,
    pub rtt_micros: Option<u64>,
}

impl View for PeerInfo {
    type V = PeerView;

    open spec fn view(&self) -> PeerView {
        PeerView {
            id: self.id@,
            name: self.name@,
            addr: self.addr@,
            tcp_port: self.tcp_port,
            last_seen: self.last_seen,
            rtt_micros: self.rtt_micros,
        }
    }
}

/// A message that a peer has sent.
pub struct InboxMsg {
    pub from_id: String,
    pub from_name: String,
    pub from_addr: String,
    pub body: String,
    pub received_unix_ms: u64,
}

/// What an [`InboxMsg`] holds.
pub struct InboxView {
    pub from_id: Seq<char>,
    pub from_name: Seq<char>,
    pub from_addr: Seq<char>,
    pub body: Seq<char>,
    pub received_unix_ms: u64,
}

impl View for InboxMsg {
    type V = InboxView;

    open spec fn view(&self) -> InboxView {
        InboxView {
            from_id: self.from_id@,
            from_name: self.from_name@,
            from_addr: self.from_addr@,
            body: self.body@,
            received_unix_ms: self.received_unix_ms,
        }
    }
}

/// A node.
pub struct Shared {
    pub id: String,
    pub name: String,
    pub tcp_port: u16,
    /// The peers, in the order in which this node first heard of them.
    pub peers: Vec<PeerInfo>,
    /// The messages that have come and were not read yet, the oldest first.
    pub inbox: Vec<InboxMsg>,
    /// When the most recent active probe was sent; used to attribute RTT to replies.
    pub last_probe_at: Option<u64>,
}

/// What a [`Shared`] holds.
#[verifier::ext_equal]
pub struct SharedView {
    pub id: Seq<char>,
    pub name: Seq<char>,
    pub tcp_port: u16,
    pub peers: Seq<PeerView>,
    pub inbox: Seq<InboxView>,
    pub last_probe_at: Option<u64>,
}

/// What a list of peers holds.
pub open spec fn peers_view(s: Seq<PeerInfo>) -> Seq<PeerView> {
    s.map_values(|p: PeerInfo| p@)
}

/// What a list of messages holds.
pub open spec fn inbox_view(s: Seq<InboxMsg>) -> Seq<InboxView> {
    s.map_values(|m: InboxMsg| m@)
}

impl View for Shared {
    type V = SharedView;

    open spec fn view(&self) -> SharedView {
        SharedView {
            id: self.id@,
            name: self.name@,
            tcp_port: self.tcp_port,
            peers: peers_view(self.peers@),
            inbox: inbox_view(self.inbox@),
            last_probe_at: self.last_probe_at,
        }
    }
}

impl SharedView {
    /// What holds of every node: no two of its peers have the same id, and none has the
    /// node's own.
    pub open spec fn wf(self) -> bool {
        &&& forall|i: int, j: int|
            0 <= i < j < self.peers.len() ==> (#[trigger] self.peers[i]).id != (
            #[trigger] self.peers[j]).id
        &&& forall|i: int| 0 <= i < self.peers.len() ==> (#[trigger] self.peers[i]).id != self.id
    }

    /// Whether a peer with this id is known.
    pub open spec fn knows(self, id: Seq<char>) -> bool {
        exists|i: int| 0 <= i < self.peers.len() && (#[trigger] self.peers[i]).id == id
    }
}

/// How long ago an instant was; nothing, if it has not come yet.
pub open spec fn elapsed(since: u64, now: u64) -> u64 {
    if since <= now {
        (now - since) as u64
    } else {
        0
    }
}

/// The id of a node that came up `nanos` after the epoch as process `pid`: eight
/// hexadecimal digits.
pub open spec fn node_id(nanos: u64, pid: u32) -> Seq<char> {
    let seed = nanos ^ ((pid as u64) << 32u64);
    let mixed = (seed * 0x9E37_79B9_7F4A_7C15) % 0x1_0000_0000_0000_0000;
    hex((mixed / 0x1_0000_0000) as nat, 8)
}

/// The name of a node: the one that was chosen for it, or else that of its host, a
/// hyphen, and the first four digits of its id.
pub open spec fn node_name(chosen: Option<Seq<char>>, host: Seq<char>, id: Seq<char>) -> Seq<char> {
    match chosen {
        Some(name) => name,
        None => host + seq!['-'] + id.take(4),
    }
}

/// The characters of an optional text.
pub open spec fn option_view(s: Option<String>) -> Option<Seq<char>> {
    match s {
        Some(t) => Some(t@),
        None => None,
    }
}

/// A node that has just come up.
pub open spec fn fresh(
    tcp_port: u16,
    nanos: u64,
    pid: u32,
    chosen: Option<Seq<char>>,
    host: Seq<char>,
) -> SharedView {
    SharedView {
        id: node_id(nanos, pid),
        name: node_name(chosen, host, node_id(nanos, pid)),
        tcp_port,
        peers: Seq::empty(),
        inbox: Seq::empty(),
        last_probe_at: None,
    }
}

/// Milliseconds since the epoch, as 64 bits hold them.
pub open spec fn epoch_millis(secs: u64, nanos: u32) -> u64 {
    ((secs * 1000 + nanos as int / 1_000_000) % 0x1_0000_0000_0000_0000) as u64
}

/// Nanoseconds since the epoch, as 64 bits hold them.
pub open spec fn epoch_nanos(secs: u64, nanos: u32) -> u64 {
    ((secs * 1_000_000_000 + nanos) % 0x1_0000_0000_0000_0000) as u64
}

/// The last 64 bits of a number.
fn low_bits(n: u128) -> (r: u64)
    ensures
        r == n % 0x1_0000_0000_0000_0000,
{
    assert(n as u64 == n % 0x1_0000_0000_0000_0000) by (bit_vector);
    n as u64
}

/// Milliseconds for a time since the epoch.
pub fn millis_of(secs: u64, nanos: u32) -> (r: u64)
    ensures
        r == epoch_millis(secs, nanos),
{
    low_bits(secs as u128 * 1000 + (nanos / 1_000_000) as u128)
}

/// Nanoseconds for a time since the epoch.
pub fn nanos_of(secs: u64, nanos: u32) -> (r: u64)
    ensures
        r == epoch_nanos(secs, nanos),
{
    low_bits(secs as u128 * 1_000_000_000 + nanos as u128)
}

/// Whether a reading of the clock is none, or one with less than a second's nanoseconds.
pub open spec fn is_reading(at: Option<(u64, u32)>) -> bool {
    at matches Some(d) ==> d.1 < 1_000_000_000
}

/// The milliseconds since the epoch that a reading of the clock is.
pub open spec fn millis_read(at: Option<(u64, u32)>) -> Option<u64> {
    match at {
        Some(d) => Some(epoch_millis(d.0, d.1)),
        None => None,
    }
}

/// The milliseconds since the epoch for a reading of the clock; none for none.
pub fn millis_at(at: Option<(u64, u32)>) -> (r: Option<u64>)
    ensures
        r == millis_read(at),
{
    match at {
        Some((secs, nanos)) => Some(millis_of(secs, nanos)),
        None => None,
    }
}

/// Measures a reading of the clock from the epoch.
fn measured(t: std::time::SystemTime) -> (r: Option<(u64, u32)>)
    ensures
        r == clock_reading(t),
        is_reading(r),
{
    match since_epoch(t) {
        Ok(d) => Some(d),
        Err(_) => None,
    }
}

/// The time in milliseconds since the epoch, as a reading of the clock gives it; none
/// exactly where that is a time before the epoch.
pub fn unix_ms() -> (r: Option<u64>)
    ensures
        exists|t: std::time::SystemTime|
            r == millis_read(#[trigger] clock_reading(t)) && is_reading(clock_reading(t)),
{
    let t = std::time::SystemTime::now();
    millis_at(measured(t))
}

/// How long ago an instant was.
pub fn elapsed_nanos(since: u64, now: u64) -> (r: u64)
    ensures
        r == elapsed(since, now),
{
    now.saturating_sub(since)
}

/// What a node holds, where there is one.
pub open spec fn node_view(s: Option<Shared>) -> Option<SharedView> {
    match s {
        Some(s) => Some(s@),
        None => None,
    }
}

/// The node that comes up at a reading of the clock; none for none.
pub open spec fn fresh_at(
    tcp_port: u16,
    at: Option<(u64, u32)>,
    pid: u32,
    chosen: Option<Seq<char>>,
    host: Seq<char>,
) -> Option<SharedView> {
    match at {
        Some(d) => Some(fresh(tcp_port, epoch_nanos(d.0, d.1), pid, chosen, host)),
        None => None,
    }
}

impl Shared {
    /// A node that comes up now, as a reading of the clock has it; none exactly where that
    /// is a time before the epoch. The name is `chosen`, or made from `host` and the id.
    pub fn new(tcp_port: u16, pid: u32, chosen: Option<String>, host: &str) -> (r: Option<Shared>)
        ensures
            exists|t: std::time::SystemTime|
                node_view(r) == fresh_at(
                    tcp_port,
                    #[trigger] clock_reading(t),
                    pid,
                    option_view(chosen),
                    host@,
                ) && is_reading(clock_reading(t)),
    {
        let t = std::time::SystemTime::now();
        Shared::come_up(tcp_port, measured(t), pid, chosen, host)
    }

    /// A node that comes up at a reading of the clock; none for none.
    pub fn come_up(
        tcp_port: u16,
        at: Option<(u64, u32)>,
        pid: u32,
        chosen: Option<String>,
        host: &str,
    ) -> (r: Option<Shared>)
        ensures
            node_view(r) == fresh_at(tcp_port, at, pid, option_view(chosen), host@),
    {
        match at {
            Some((secs, nanos)) => Some(
                Shared::seeded(tcp_port, nanos_of(secs, nanos), pid, chosen, host),
            ),
            None => None,
        }
    }

    /// A node that comes up `nanos` after the epoch.
    pub fn seeded(
        tcp_port: u16,
        nanos: u64,
        pid: u32,
        chosen: Option<String>,
        host: &str,
    ) -> (s: Shared)
        ensures
            s@ == fresh(tcp_port, nanos, pid, option_view(chosen), host@),
    {
        let seed: u64 = nanos ^ ((pid as u64) << 32u64);
        let mixed: u64 = seed.wrapping_mul(0x9E37_79B9_7F4A_7C15);
        assert(mixed >> 32u64 == mixed / 0x1_0000_0000) by (bit_vector);
        let id = hex_text(mixed >> 32u64, 8);
        proof {
            crate::text::hex_len((mixed / 0x1_0000_0000) as nat, 8);
        }
        assert(id@ == node_id(nanos, pid));
        let name = match chosen {
            Some(name) => name,
            None => {
                let mut name = copy(host);
                name.push('-');
                join(name.as_str(), id.as_str().substring_char(0, 4))
            },
        };
        assert(name@ =~= node_name(option_view(chosen), host@, id@));
        let s = Shared {
            id,
            name,
            tcp_port,
            peers: Vec::new(),
            inbox: Vec::new(),
            last_probe_at: None,
        };
        assert(s@ =~= fresh(tcp_port, nanos, pid, option_view(chosen), host@));
        s
    }
}

}
