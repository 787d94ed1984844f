//! Packets, the peer table and scans.
use lan_mcp::net::{
    announce_loop, discovery_listener, drop_stale, here_packet, packet_bytes, send_bye,
    send_probe, upsert_peer, AnnounceAction, AnnounceEvent, Packet, MCAST_GROUP,
};
use lan_mcp::scan::{begin, discover, Scan, ScanAction};
use lan_mcp::state::{PeerInfo, Shared};

const MS: u64 = 1_000_000;
const SEC: u64 = 1_000_000_000;

fn node(name: &str, nanos: u64) -> Shared {
    Shared::seeded(9000, nanos, 1, Some(String::from(name)), "host")
}

fn probe(id: &str, name: &str, port: u16) -> Packet {
    Packet::Probe { id: String::from(id), name: String::from(name), port }
}

fn here(id: &str, name: &str, port: u16) -> Packet {
    Packet::Here { id: String::from(id), name: String::from(name), port }
}

fn bye(id: &str) -> Packet {
    Packet::Bye { id: String::from(id) }
}

fn ids(s: &Shared) -> Vec<&str> {
    s.peers.iter().map(|p| p.id.as_str()).collect()
}

fn is_here_of(p: &Option<Packet>, s: &Shared) -> bool {
    match p {
        Some(Packet::Here { id, name, port }) => {
            *id == s.id && *name == s.name && *port == s.tcp_port
        }
        _ => false,
    }
}

fn shown(p: &PeerInfo) -> (&str, &str, &str, u16, u64, Option<u64>) {
    (&p.id, &p.name, &p.addr, p.tcp_port, p.last_seen, p.rtt_micros)
}

#[test]
fn the_group_is_fixed() {
    assert_eq!(MCAST_GROUP, "239.92.108.99");
}

#[test]
fn a_probe_is_answered_and_its_sender_learnt() {
    let mut s = node("alpha", 1);
    let answer = discovery_listener(&mut s, probe("b", "beta", 7), "10.0.0.2", 5);
    assert!(is_here_of(&answer, &s));
    assert_eq!(s.peers.len(), 1);
    assert_eq!(shown(&s.peers[0]), ("b", "beta", "10.0.0.2", 7, 5, None));
}

#[test]
fn an_announcement_is_learnt_but_not_answered() {
    let mut s = node("alpha", 1);
    assert!(discovery_listener(&mut s, here("b", "beta", 7), "10.0.0.2", 5).is_none());
    assert_eq!(shown(&s.peers[0]), ("b", "beta", "10.0.0.2", 7, 5, None));
}

#[test]
fn a_node_passes_over_its_own_packets() {
    let mut s = node("alpha", 1);
    let own = send_probe(&mut s, 3);
    assert!(discovery_listener(&mut s, own, "10.0.0.1", 4).is_none());
    let own = here_packet(&s);
    assert!(discovery_listener(&mut s, own, "10.0.0.1", 4).is_none());
    let own = send_bye(&s);
    assert!(discovery_listener(&mut s, own, "10.0.0.1", 4).is_none());
    assert!(s.peers.is_empty());
}

#[test]
fn an_answer_to_a_recent_probe_tells_the_round_trip_time() {
    let mut s = node("alpha", 1);
    send_probe(&mut s, 10 * MS);
    assert_eq!(s.last_probe_at, Some(10 * MS));
    discovery_listener(&mut s, here("b", "beta", 7), "10.0.0.2", 11 * MS + 234_999);
    assert_eq!(s.peers[0].rtt_micros, Some(1234));
    // Just in time, and just too late.
    discovery_listener(&mut s, here("c", "gamma", 7), "10.0.0.3", 10 * MS + 2 * SEC - 1);
    assert_eq!(s.peers[1].rtt_micros, Some(1_999_999));
    discovery_listener(&mut s, here("d", "delta", 7), "10.0.0.4", 10 * MS + 2 * SEC);
    assert_eq!(s.peers[2].rtt_micros, None);
}

#[test]
fn news_without_a_round_trip_time_keep_the_old_one() {
    let mut s = node("alpha", 1);
    send_probe(&mut s, 0);
    discovery_listener(&mut s, here("b", "beta", 7), "10.0.0.2", 5 * MS);
    discovery_listener(&mut s, probe("b", "beta two", 8), "10.0.0.9", 4 * SEC);
    assert_eq!(shown(&s.peers[0]), ("b", "beta two", "10.0.0.9", 8, 4 * SEC, Some(5000)));
    discovery_listener(&mut s, here("b", "beta", 7), "10.0.0.2", 5 * SEC);
    assert_eq!(shown(&s.peers[0]), ("b", "beta", "10.0.0.2", 7, 5 * SEC, Some(5000)));
    send_probe(&mut s, 6 * SEC);
    discovery_listener(&mut s, here("b", "beta", 7), "10.0.0.2", 6 * SEC + MS);
    assert_eq!(s.peers[0].rtt_micros, Some(1000));
    assert_eq!(s.peers.len(), 1);
}

#[test]
fn a_packet_that_comes_twice_is_one_peer() {
    let mut s = node("alpha", 1);
    for _ in 0..2 {
        discovery_listener(&mut s, probe("b", "beta", 7), "10.0.0.2", 5);
        discovery_listener(&mut s, here("c", "gamma", 7), "10.0.0.3", 5);
    }
    assert_eq!(ids(&s), vec!["b", "c"]);
    for _ in 0..2 {
        discovery_listener(&mut s, bye("b"), "10.0.0.2", 6);
    }
    assert_eq!(ids(&s), vec!["c"]);
}

#[test]
fn a_farewell_drops_the_one_who_says_it() {
    let mut s = node("alpha", 1);
    for id in ["b", "c", "d"] {
        discovery_listener(&mut s, here(id, "same name", 7), "10.0.0.2", 5);
    }
    assert!(discovery_listener(&mut s, bye("c"), "10.0.0.7", 6).is_none());
    assert_eq!(ids(&s), vec!["b", "d"]);
    discovery_listener(&mut s, bye("nobody"), "10.0.0.7", 6);
    assert_eq!(ids(&s), vec!["b", "d"]);
}

#[test]
fn two_nodes_know_each_other_after_one_probe() {
    let mut a = node("alpha", 1);
    let mut b = node("beta", 2);
    let p = send_probe(&mut a, 100);
    let answer = discovery_listener(&mut b, p, "10.0.0.1", 7).unwrap();
    assert!(discovery_listener(&mut a, answer, "10.0.0.2", 100 + 3000).is_none());
    assert_eq!(shown(&a.peers[0]), (b.id.as_str(), "beta", "10.0.0.2", 9000, 3100, Some(3)));
    assert_eq!(shown(&b.peers[0]), (a.id.as_str(), "alpha", "10.0.0.1", 9000, 7, None));
}

#[test]
fn upserting_changes_one_entry() {
    let mut s = node("alpha", 1);
    let text = |t: &str| String::from(t);
    upsert_peer(&mut s, text("b"), text("beta"), text("1.1.1.1"), 1, Some(9), 10);
    upsert_peer(&mut s, text("c"), text("gamma"), text("2.2.2.2"), 2, None, 11);
    upsert_peer(&mut s, text("b"), text("beta!"), text("3.3.3.3"), 3, None, 12);
    assert_eq!(shown(&s.peers[0]), ("b", "beta!", "3.3.3.3", 3, 12, Some(9)));
    assert_eq!(shown(&s.peers[1]), ("c", "gamma", "2.2.2.2", 2, 11, None));
}

#[test]
fn peers_go_stale_after_thirty_seconds() {
    let mut s = node("alpha", 1);
    discovery_listener(&mut s, here("b", "beta", 7), "10.0.0.2", SEC);
    discovery_listener(&mut s, here("c", "gamma", 7), "10.0.0.3", SEC + 1);
    drop_stale(&mut s, 31 * SEC - 1);
    assert_eq!(ids(&s), vec!["b", "c"]);
    drop_stale(&mut s, 31 * SEC);
    assert_eq!(ids(&s), vec!["c"]);
    // A peer that was heard of after the instant is not stale.
    drop_stale(&mut s, 0);
    assert_eq!(ids(&s), vec!["c"]);
}

#[test]
fn announcing_begins_with_a_probe_and_repeats_every_five_seconds() {
    let mut s = node("alpha", 1);
    match announce_loop(&mut s, AnnounceEvent::Started, 42) {
        AnnounceAction::Probe(Packet::Probe { id, name, port }) => {
            assert_eq!((id, name, port), (s.id.clone(), String::from("alpha"), 9000));
        }
        _ => panic!("no probe"),
    }
    assert_eq!(s.last_probe_at, Some(42));
    assert!(matches!(
        announce_loop(&mut s, AnnounceEvent::Probed, 43),
        AnnounceAction::Sleep(5000)
    ));
    discovery_listener(&mut s, here("b", "beta", 7), "10.0.0.2", 44);
    match announce_loop(&mut s, AnnounceEvent::Woke, 45 + 30 * SEC) {
        AnnounceAction::Announce(p) => assert!(is_here_of(&Some(p), &s)),
        _ => panic!("no announcement"),
    }
    assert_eq!(ids(&s), vec!["b"]);
    assert!(matches!(
        announce_loop(&mut s, AnnounceEvent::Announced, 45 + 30 * SEC),
        AnnounceAction::Sleep(5000)
    ));
    assert!(s.peers.is_empty());
    assert_eq!(s.last_probe_at, Some(42));
}

/// Runs a scan with looks every 20 ms; `count` tells how many peers there are at an
/// instant. Gives the instant of the end, the count, and how many probes were repeated.
fn run(wait_ms: u64, count: fn(u64) -> usize) -> (u64, usize, u32) {
    let start: u64 = 7 * SEC;
    let mut now: u64 = start;
    let mut scan: Scan = begin(wait_ms, now);
    let mut again: u32 = 0;
    loop {
        let (next, action) = discover(scan, count((now - start) / MS), now);
        scan = next;
        match action {
            ScanAction::Probe => again += 1,
            ScanAction::Sleep(nanos) => now += nanos,
            ScanAction::Done(n) => return ((now - start) / MS, n, again),
        }
    }
}

#[test]
fn a_scan_of_a_quiet_lan_ends_early() {
    assert_eq!(run(300, |_| 2), (140, 2, 1));
    assert_eq!(run(5000, |_| 0), (140, 0, 1));
}

#[test]
fn a_scan_goes_on_while_peers_answer() {
    // The last answer is seen at 100 ms, so the LAN is quiet from 230 ms on.
    assert_eq!(run(5000, |ms| (ms.min(100) / 20) as usize), (240, 5, 1));
}

#[test]
fn a_scan_ends_at_its_ceiling() {
    assert_eq!(run(300, |ms| (ms / 20) as usize), (300, 15, 1));
    assert_eq!(run(310, |ms| (ms / 20) as usize), (310, 15, 1));
    assert_eq!(run(100, |_| 1), (100, 1, 1));
    assert_eq!(run(59, |_| 1), (59, 1, 0));
    assert_eq!(run(60, |_| 1), (60, 1, 1));
}

#[test]
fn a_short_scan_takes_no_longer_than_it_may() {
    assert_eq!(run(0, |_| 3), (0, 3, 0));
    assert_eq!(run(1, |_| 3), (1, 3, 0));
    assert_eq!(run(10, |ms| ms as usize), (10, 10, 0));
    assert_eq!(run(20, |_| 3), (20, 3, 0));
    assert_eq!(run(50, |_| 3), (50, 3, 0));
    let mut wait_ms: u64 = 0;
    while wait_ms < 400 {
        let (end, _, again) = run(wait_ms, |ms| (ms / 7) as usize);
        assert_eq!(end, wait_ms);
        assert!(again <= 1);
        wait_ms += 1;
    }
}

#[test]
fn the_ceiling_on_a_scan_is_what_was_asked_for_up_to_the_greatest() {
    assert_eq!(begin(0, 5).deadline, 0);
    assert_eq!(begin(10, 5).deadline, 10 * MS);
    assert_eq!(begin(1234, 5).deadline, 1234 * MS);
    assert_eq!(begin(5000, 5).deadline, 5000 * MS);
    assert_eq!(begin(5001, 5).deadline, 5000 * MS);
    assert_eq!(begin(u64::MAX, 5).deadline, 5000 * MS);
    assert_eq!(run(u64::MAX, |ms| (ms / 20) as usize), (5000, 250, 1));
}

#[test]
fn a_scan_sleeps_no_longer_than_what_is_left() {
    let scan = begin(35, 0);
    let (scan, first) = discover(scan, 1, 0);
    assert!(matches!(first, ScanAction::Sleep(20_000_000)));
    // It woke late: 21.5 ms are gone, so 13.5 ms are left.
    let (scan, second) = discover(scan, 1, 21 * MS + MS / 2);
    assert!(matches!(second, ScanAction::Sleep(13_500_000)));
    let (scan, third) = discover(scan, 2, 35 * MS - 1);
    assert!(matches!(third, ScanAction::Sleep(1)));
    let (_, fourth) = discover(scan, 2, 35 * MS);
    assert!(matches!(fourth, ScanAction::Done(2)));
    // The first probe itself took all the time.
    let (_, late) = discover(begin(35, 0), 6, 35 * MS);
    assert!(matches!(late, ScanAction::Done(6)));
}

#[test]
fn a_scan_does_not_end_just_before_its_ceiling() {
    let (scan, _) = discover(begin(100, 0), 1, 0);
    let (scan, again) = discover(scan, 1, 70 * MS);
    assert!(matches!(again, ScanAction::Probe));
    let (scan, sleep) = discover(scan, 1, 70 * MS);
    assert!(matches!(sleep, ScanAction::Sleep(20_000_000)));
    // A new peer is seen half a millisecond before the end.
    let (scan, on) = discover(scan, 2, 99 * MS + MS / 2);
    assert!(matches!(on, ScanAction::Sleep(500_000)));
    let (_, end) = discover(scan, 3, 100 * MS);
    assert!(matches!(end, ScanAction::Done(3)));
}

#[test]
fn a_scan_of_sixty_milliseconds_or_more_probes_twice() {
    // Looked at late, it still waits for its ceiling and sends the second probe.
    let (scan, _) = discover(begin(60, 0), 1, 0);
    let (scan, wait) = discover(scan, 1, 59 * MS + MS / 2);
    assert!(matches!(wait, ScanAction::Sleep(500_000)));
    let (scan, again) = discover(scan, 1, 60 * MS);
    assert!(matches!(again, ScanAction::Probe));
    let (_, end) = discover(scan, 5, 60 * MS);
    assert!(matches!(end, ScanAction::Done(1)));
    // So does one whose first probe took all the time.
    let (scan, again) = discover(begin(60, 0), 4, 75 * MS);
    assert!(matches!(again, ScanAction::Probe));
    let (_, end) = discover(scan, 5, 76 * MS);
    assert!(matches!(end, ScanAction::Done(4)));
}

#[test]
fn a_scan_that_oversleeps_still_owes_its_second_probe() {
    let scan = begin(300, 0);
    let (scan, first) = discover(scan, 1, 0);
    assert!(matches!(first, ScanAction::Sleep(20_000_000)));
    let (scan, second) = discover(scan, 4, 400 * MS);
    assert!(matches!(second, ScanAction::Probe));
    let (_, third) = discover(scan, 9, 401 * MS);
    assert!(matches!(third, ScanAction::Done(4)));
}

#[test]
fn a_change_in_the_number_of_peers_either_way_is_no_quiet() {
    assert_eq!(run(5000, |ms| if ms < 40 { 3 } else { 2 }), (180, 2, 1));
}

#[test]
fn packets_go_out_as_json() {
    let shown = |p: &Packet| String::from_utf8(packet_bytes(p)).unwrap();
    assert_eq!(
        shown(&probe("b", "be\"ta\n", 7)),
        "{\"t\":\"probe\",\"id\":\"b\",\"name\":\"be\\\"ta\\n\",\"port\":7}"
    );
    assert_eq!(
        shown(&here("b", "beta", 65535)),
        "{\"t\":\"here\",\"id\":\"b\",\"name\":\"beta\",\"port\":65535}"
    );
    assert_eq!(shown(&bye("b")), "{\"t\":\"bye\",\"id\":\"b\"}");
}

#[test]
fn a_second_copy_changes_the_times_alone() {
    let mut s = node("alpha", 1);
    send_probe(&mut s, 0);
    discovery_listener(&mut s, here("a", "other", 1), "10.0.0.9", MS);
    for now in [2 * MS, 3 * MS] {
        discovery_listener(&mut s, here("b", "beta", 7), "10.0.0.2", now);
    }
    assert_eq!(shown(&s.peers[1]), ("b", "beta", "10.0.0.2", 7, 3 * MS, Some(3000)));
    // A copy that comes too late for an answer leaves the time of the first.
    discovery_listener(&mut s, here("b", "beta", 7), "10.0.0.2", 2 * SEC);
    assert_eq!(shown(&s.peers[1]), ("b", "beta", "10.0.0.2", 7, 2 * SEC, Some(3000)));
    discovery_listener(&mut s, probe("b", "beta", 7), "10.0.0.2", 3 * SEC);
    assert_eq!(shown(&s.peers[1]), ("b", "beta", "10.0.0.2", 7, 3 * SEC, Some(3000)));
    assert_eq!(shown(&s.peers[0]), ("a", "other", "10.0.0.9", 1, MS, Some(1000)));
    assert_eq!(s.peers.len(), 2);
}

#[test]
fn announcements_alternate_with_waits() {
    let mut s = node("alpha", 1);
    let mut event = AnnounceEvent::Started;
    let mut seen = String::new();
    for step in 0..9 {
        let now: u64 = step * SEC;
        event = match announce_loop(&mut s, event, now) {
            AnnounceAction::Probe(_) => {
                seen.push('p');
                AnnounceEvent::Probed
            }
            AnnounceAction::Announce(_) => {
                seen.push('a');
                AnnounceEvent::Announced
            }
            AnnounceAction::Sleep(ms) => {
                assert_eq!(ms, 5000);
                seen.push('s');
                AnnounceEvent::Woke
            }
        };
    }
    assert_eq!(seen, "psasasasa");
}
