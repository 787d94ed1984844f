//! Text, numbers, JSON and the clock.
use lan_mcp::json::{add_item, add_member, from_tenths, read, to_line, to_text, Json};
use lan_mcp::net::mcast_port;
use lan_mcp::state::{elapsed_nanos, millis_at, millis_of, nanos_of, unix_ms, Shared};
use lan_mcp::text::{
    at_most, chars_of, copy, decimal_text, hex_text, join, port_of, same, starts_with,
    tenths_text, trim,
};
use lan_mcp::tools::round;

#[test]
fn texts_are_compared_by_their_characters() {
    assert!(same("größe", "größe"));
    assert!(!same("alpha", "alph"));
    assert!(!same("alph", "alpha"));
    assert!(!same("alpha", "alphA"));
    assert!(same("", ""));
    assert!(starts_with("alpha-3f2c", "alpha"));
    assert!(starts_with("alpha", ""));
    assert!(starts_with("alpha", "alpha"));
    assert!(!starts_with("alpha", "alpha-"));
    assert!(!starts_with("alpha", "lpha"));
    assert_eq!(chars_of("aé—"), vec!['a', 'é', '—']);
    assert_eq!(copy("aé—"), "aé—");
    assert_eq!(join("aé", "—b"), "aé—b");
}

#[test]
fn texts_are_ordered_as_the_standard_library_orders_them() {
    let words = ["", "a", "ab", "b", "B", "ä", "a-1", "a1", "😀", "zz", "\u{ffff}"];
    for a in words {
        for b in words {
            assert_eq!(at_most(a, b), a <= b, "{a:?} {b:?}");
        }
    }
}

#[test]
fn white_space_is_trimmed_at_both_ends() {
    let texts = [
        "", " ", " \t\r\n", "a", " a b ", "\u{a0}x\u{3000}", "\u{85}\u{2028}y z\u{205f}",
        "\u{200b}a\u{200b}", "\u{1680}\u{2003}q\u{202f}", "{\"ok\":true}\n", "\u{b}\u{c}v",
    ];
    for t in texts {
        assert_eq!(trim(t), t.trim(), "{t:?}");
    }
}

#[test]
fn every_character_is_white_space_or_not_as_the_standard_library_has_it() {
    let mut spaces: u32 = 0;
    for c in '\u{0}'..='\u{3100}' {
        let s = c.to_string();
        assert_eq!(trim(&s).is_empty(), c.is_whitespace(), "{c:?}");
        if c.is_whitespace() {
            spaces += 1;
        }
    }
    assert_eq!(spaces, 25);
}

#[test]
fn numbers_are_written_in_decimal_and_hexadecimal() {
    assert_eq!(decimal_text(0), "0");
    assert_eq!(decimal_text(907), "907");
    assert_eq!(decimal_text(u64::MAX), "18446744073709551615");
    assert_eq!(tenths_text(0), "0.0");
    assert_eq!(tenths_text(7), "0.7");
    assert_eq!(tenths_text(1234), "123.4");
    assert_eq!(hex_text(0, 8), "00000000");
    assert_eq!(hex_text(0xdeadbeef, 8), "deadbeef");
    assert_eq!(hex_text(0x12345, 4), "2345");
    assert_eq!(hex_text(0xabc, 0), "");
}

#[test]
fn ports_read_back_from_their_notation() {
    let ports: [u16; 5] = [0, 9, 80, 48618, 65535];
    for p in ports {
        assert_eq!(port_of(&decimal_text(p as u64)), Some(p));
    }
}

#[test]
fn ports_are_read_as_the_standard_library_reads_them() {
    let texts = [
        "", "+", "-", "+0", "-0", "007", "65535", "65536", "+65535", "++1", "1+", " 1", "1 ",
        "0x10", "99999999999999999999", "00000000000000000000080", "٣", "48618",
    ];
    for t in texts {
        assert_eq!(port_of(t), t.parse::<u16>().ok(), "{t:?}");
    }
}

#[test]
fn the_discovery_port_falls_back_to_the_default() {
    assert_eq!(mcast_port(None), 48618);
    assert_eq!(mcast_port(Some(String::from("5000"))), 5000);
    assert_eq!(mcast_port(Some(String::from("+5000"))), 5000);
    assert_eq!(mcast_port(Some(String::from("five"))), 48618);
    assert_eq!(mcast_port(Some(String::from("70000"))), 48618);
    assert_eq!(mcast_port(Some(String::new())), 48618);
}

#[test]
fn rounding_takes_halves_upwards() {
    assert_eq!(round(0, 100), 0);
    assert_eq!(round(49, 100), 0);
    assert_eq!(round(50, 100), 1);
    assert_eq!(round(149, 100), 1);
    assert_eq!(round(150, 100), 2);
    assert_eq!(round(7, 1), 7);
    assert_eq!(round(1, 3), 0);
    assert_eq!(round(2, 3), 1);
    assert_eq!(round(u64::MAX, 1), u64::MAX);
    assert_eq!(round(u64::MAX, u64::MAX), 1);
}

#[test]
fn tenths_are_what_floating_point_rounding_gives() {
    let mut micros: u64 = 0;
    while micros < 4_000_000 {
        let expected = ((micros as f64) / 100.0).round() / 10.0;
        let json = serde_json::Value::from(expected).to_string();
        assert_eq!(to_text(from_tenths(round(micros, 100))), json);
        micros += 37;
    }
    let mut millis: u64 = 0;
    while millis < 36_000 {
        let ago = std::time::Duration::from_millis(millis);
        let expected = (ago.as_secs_f64() * 10.0).round() / 10.0;
        let json = serde_json::Value::from(expected).to_string();
        let nanos: u64 = millis * 1_000_000;
        assert_eq!(to_text(from_tenths(round(nanos, 100_000_000))), json);
        millis += 1;
    }
}

#[test]
fn every_kind_of_json_is_read_and_written() {
    let texts = [
        "null", "true", "false", "0", "18446744073709551615", "-9223372036854775808", "-1", "1.5",
        "1e+300", "-0.0", "\"\"", "\"a\\n\\\"é\"", "[]", "[1,[2,[3]],null]", "{}",
        "{\"a\":{\"b\":[true,1.25]},\"c\":-7}",
    ];
    for t in texts {
        assert_eq!(to_text(read(t).unwrap()), t, "{t}");
    }
    assert_eq!(to_text(read(" { \"b\" : 1 , \"a\" : [ 2 ] } ").unwrap()), "{\"a\":[2],\"b\":1}");
    for t in ["", "{", "nul", "[1,]", "{a:1}", "1 2", "'x'"] {
        assert!(read(t).is_none(), "{t}");
    }
}

#[test]
fn json_is_written_from_plain_values() {
    let mut list: Vec<Json> = Vec::new();
    add_item(&mut list, Json::Null);
    add_item(&mut list, Json::Bool(true));
    add_item(&mut list, Json::Uint(u64::MAX));
    add_item(&mut list, Json::Int(-5));
    add_item(&mut list, Json::text("line\nfeed"));
    let mut m: Vec<(String, Json)> = Vec::new();
    add_member(&mut m, "list", Json::Uint(1));
    add_member(&mut m, "empty", Json::Object(Vec::new()));
    add_member(&mut m, "list", Json::List(list));
    let text = "{\"empty\":{},\"list\":[null,true,18446744073709551615,-5,\"line\\nfeed\"]}";
    assert_eq!(to_text(Json::Object(m)), text);
}

#[test]
fn the_last_of_two_members_with_one_name_counts() {
    let j = read("{\"a\":1,\"b\":2,\"a\":3}").unwrap();
    assert_eq!(j.uint_member("a"), Some(3));
    assert_eq!(to_text(j), "{\"a\":3,\"b\":2}");
    let mut m: Vec<(String, Json)> = Vec::new();
    add_member(&mut m, "a", Json::Uint(1));
    add_member(&mut m, "a", Json::Uint(3));
    let j = Json::Object(m);
    assert_eq!(j.uint_member("a"), Some(3));
    assert!(matches!(j.take("a"), Some(Json::Uint(3))));
}

#[test]
fn members_are_read_by_their_type() {
    let text = "{\"s\":\"x\",\"n\":7,\"neg\":-7,\"r\":1.5,\"whole\":7.0,\"null\":null,\"big\":18446744073709551615}";
    let j = read(text).unwrap();
    assert_eq!(j.text_member("s"), Some(String::from("x")));
    assert_eq!(j.text_member("n"), None);
    assert_eq!(j.text_member("none"), None);
    assert_eq!(j.uint_member("n"), Some(7));
    assert_eq!(j.uint_member("neg"), None);
    assert_eq!(j.uint_member("r"), None);
    assert_eq!(j.uint_member("whole"), None);
    assert_eq!(j.uint_member("s"), None);
    assert_eq!(j.uint_member("big"), Some(u64::MAX));
    assert!(j.get("null").unwrap().is_null());
    assert!(j.get("none").is_none());
    assert!(!j.is_null());
    assert!(Json::Null.get("s").is_none());
    assert!(read("[1]").unwrap().take("0").is_none());
    assert_eq!(Json::Int(-1).as_u64(), None);
    assert_eq!(Json::Int(4).as_u64(), Some(4));
    assert_eq!(Json::Uint(4).as_u64(), Some(4));
    assert_eq!(Json::text("y").as_str(), Some(&String::from("y")));
    assert!(Json::Null.as_str().is_none());
}

#[test]
fn a_line_is_the_text_and_a_line_feed() {
    assert_eq!(to_line(Json::text("a\nb—")), "\"a\\nb—\"\n".as_bytes());
}

#[test]
fn json_reads_back_as_deep_as_it_may_nest() {
    let mut deep = Json::Uint(1);
    for _ in 0..127 {
        deep = Json::List(vec![deep]);
    }
    let text = to_text(deep);
    assert_eq!(to_text(read(&text).unwrap()), text);
    assert!(read(&format!("[{text}]")).is_none());
}

#[test]
fn times_since_the_epoch_are_counted_in_64_bits() {
    assert_eq!(millis_of(0, 0), 0);
    assert_eq!(millis_of(1_700_000_000, 123_999_999), 1_700_000_000_123);
    assert_eq!(nanos_of(1_700_000_000, 123_456_789), 1_700_000_000_123_456_789);
    assert_eq!(millis_of(u64::MAX, 999_999_999), ((u64::MAX as u128) * 1000 + 999) as u64);
    assert_eq!(nanos_of(u64::MAX, 7), ((u64::MAX as u128) * 1_000_000_000 + 7) as u64);
}

#[test]
fn the_clock_is_read_in_milliseconds() {
    let now = || -> u64 {
        std::time::SystemTime::now()
            .duration_since(std::time::UNIX_EPOCH)
            .unwrap()
            .as_millis() as u64
    };
    let before: u64 = now();
    let read: u64 = unix_ms().unwrap();
    let after: u64 = now();
    assert!(before <= read && read <= after);
}

#[test]
fn elapsed_time_is_never_negative() {
    assert_eq!(elapsed_nanos(3, 10), 7);
    assert_eq!(elapsed_nanos(10, 3), 0);
}

#[test]
fn a_node_mixes_its_id_from_the_time_and_the_process() {
    let cases: [(u64, u32); 4] =
        [(0, 0), (1, 0), (1_700_000_000_123_456_789, 4242), (u64::MAX, u32::MAX)];
    for (nanos, pid) in cases {
        let seed: u64 = nanos ^ ((pid as u64) << 32);
        let id = format!("{:08x}", seed.wrapping_mul(0x9E37_79B9_7F4A_7C15) >> 32);
        let s = Shared::seeded(9000, nanos, pid, None, "host");
        assert_eq!(s.id, id);
        assert_eq!(s.name, format!("host-{}", &id[..4]));
    }
    assert_eq!(Shared::seeded(1, 1, 0, None, "h").id, "9e3779b9");
    assert_eq!(Shared::seeded(1, 1, 0, None, "h").name, "h-9e37");
}

#[test]
fn a_node_that_comes_up_knows_nobody() {
    let s = Shared::new(9000, 17, Some(String::from("alpha")), "host").unwrap();
    assert_eq!(s.name, "alpha");
    assert_eq!(s.tcp_port, 9000);
    assert_eq!(s.id.len(), 8);
    assert!(s.id.chars().all(|c| matches!(c, '0'..='9' | 'a'..='f')));
    assert!(s.peers.is_empty());
    assert!(s.inbox.is_empty());
    assert!(s.last_probe_at.is_none());
    let t = Shared::new(9000, 17, None, "host").unwrap();
    assert_eq!(t.name, format!("host-{}", &t.id[..4]));
}

#[test]
fn a_reading_before_the_epoch_gives_no_time_and_no_node() {
    assert_eq!(millis_at(None), None);
    assert!(Shared::come_up(9000, None, 1, None, "host").is_none());
    assert!(Shared::come_up(9000, None, 1, Some(String::from("alpha")), "host").is_none());
}

#[test]
fn a_reading_of_the_clock_gives_its_time_and_its_node() {
    assert_eq!(millis_at(Some((0, 0))), Some(0));
    assert_eq!(millis_at(Some((1_700_000_000, 123_999_999))), Some(1_700_000_000_123));
    let s = Shared::come_up(9000, Some((0, 1)), 0, None, "host").unwrap();
    assert_eq!((s.id.as_str(), s.name.as_str(), s.tcp_port), ("9e3779b9", "host-9e37", 9000));
    let at = Shared::come_up(9000, Some((1_700_000_000, 5)), 3, None, "h").unwrap();
    assert_eq!(at.id, Shared::seeded(9000, 1_700_000_000_000_000_005, 3, None, "h").id);
}
