//! What texts and numbers mean: the order of texts, what trimming takes off, and that every
//! notation reads as the number it was made from.
use crate::json::line_bytes;
use crate::json::parsed;
use crate::json::rendered;
use crate::json::tenths_json;
use crate::json::JsonView;
use crate::net::discovery_port;
use crate::state::elapsed;
use crate::state::epoch_millis;
use crate::state::epoch_nanos;
use crate::state::fresh;
use crate::state::fresh_at;
use crate::state::millis_read;
use crate::state::node_id;
use crate::state::node_name;
use crate::text::decimal;
use crate::text::digit;
use crate::text::hex;
use crate::text::is_space;
use crate::text::number;
use crate::text::port;
use crate::text::tenths;
use crate::text::text_le;
use crate::text::trimmed;
use crate::tools::micros_json;
use crate::tools::nearest;
use vstd::prelude::*;

verus! {

/// Whether two texts are the same up to a place and differ there.
pub open spec fn differ_first_at(a: Seq<char>, b: Seq<char>, i: int) -> bool {
    &&& 0 <= i < a.len()
    &&& i < b.len()
    &&& a[i] != b[i]
    &&& forall|k: int| 0 <= k < i ==> #[trigger] a[k] == b[k]
}

/// Whether one text is the front of another.
pub open spec fn is_front(a: Seq<char>, b: Seq<char>) -> bool {
    a.len() <= b.len() && forall|k: int| 0 <= k < a.len() ==> #[trigger] a[k] == b[k]
}

/// Texts are ordered by the first character in which they differ; where they do not differ in
/// any, the shorter one comes first.
pub proof fn texts_are_ordered_by_their_first_difference(a: Seq<char>, b: Seq<char>)
    ensures
        is_front(a, b) ==> text_le(a, b),
        is_front(b, a) && b.len() < a.len() ==> !text_le(a, b),
        forall|i: int| #[trigger]
            differ_first_at(a, b, i) ==> (text_le(a, b) <==> a[i] < b[i]),
    decreases a.len(),
{
    if a.len() > 0 && b.len() > 0 && a[0] == b[0] {
        let x = a.drop_first();
        let y = b.drop_first();
        texts_are_ordered_by_their_first_difference(x, y);
        if is_front(a, b) {
            assert forall|k: int| 0 <= k < x.len() implies #[trigger] x[k] == y[k] by {
                assert(a[k + 1] == b[k + 1]);
            }
        }
        if is_front(b, a) && b.len() < a.len() {
            assert forall|k: int| 0 <= k < y.len() implies #[trigger] y[k] == x[k] by {
                assert(b[k + 1] == a[k + 1]);
            }
        }
        assert forall|i: int| #[trigger] differ_first_at(a, b, i) implies (text_le(a, b) <==> a[i]
            < b[i]) by {
            assert(i > 0);
            assert forall|k: int| 0 <= k < i - 1 implies #[trigger] x[k] == y[k] by {
                assert(a[k + 1] == b[k + 1]);
            }
            assert(differ_first_at(x, y, i - 1));
        }
    } else if a.len() > 0 && b.len() > 0 {
        assert forall|i: int| #[trigger] differ_first_at(a, b, i) implies (text_le(a, b) <==> a[i]
            < b[i]) by {
            if i > 0 {
                assert(a[0] == b[0]);
            }
        }
        if is_front(a, b) {
            assert(a[0] == b[0]);
        }
        if is_front(b, a) {
            assert(b[0] == a[0]);
        }
    }
}

/// Whether a text is another one without its first `from` characters and without those from
/// `to` on.
pub open spec fn is_middle(t: Seq<char>, s: Seq<char>, from: int, to: int) -> bool {
    0 <= from <= to <= s.len() && t == s.subrange(from, to)
}

/// Trimming takes off white space at the two ends, all of it, and nothing else.
pub proof fn trimming_takes_white_space_off(s: Seq<char>) -> (ends: (int, int))
    ensures
        is_middle(trimmed(s), s, ends.0, ends.1),
        forall|i: int| 0 <= i < ends.0 ==> is_space(#[trigger] s[i]),
        forall|i: int| ends.1 <= i < s.len() ==> is_space(#[trigger] s[i]),
        trimmed(s).len() > 0 ==> !is_space(trimmed(s)[0]) && !is_space(
            trimmed(s)[trimmed(s).len() - 1],
        ),
    decreases s.len(),
{
    if s.len() > 0 && is_space(s.first()) {
        let t = s.drop_first();
        let (a, b) = trimming_takes_white_space_off(t);
        assert(trimmed(s) =~= s.subrange(a + 1, b + 1));
        assert forall|i: int| 0 <= i < a + 1 implies is_space(#[trigger] s[i]) by {
            if i > 0 {
                assert(t[i - 1] == s[i]);
            }
        }
        assert forall|i: int| b + 1 <= i < s.len() implies is_space(#[trigger] s[i]) by {
            assert(t[i - 1] == s[i]);
        }
        (a + 1, b + 1)
    } else if s.len() > 0 && is_space(s.last()) {
        let t = s.drop_last();
        let (a, b) = trimming_takes_white_space_off(t);
        assert(trimmed(s) =~= s.subrange(a, b));
        assert forall|i: int| 0 <= i < a implies is_space(#[trigger] s[i]) by {
            assert(t[i] == s[i]);
        }
        assert forall|i: int| b <= i < s.len() implies is_space(#[trigger] s[i]) by {
            if i < s.len() - 1 {
                assert(t[i] == s[i]);
            }
        }
        (a, b)
    } else {
        assert(s =~= s.subrange(0, s.len() as int));
        (0, s.len() as int)
    }
}

/// White space is the blank, the control characters from tab to carriage return, and some
/// characters between U+0085 and U+3000; no letter, digit or mark of ASCII is.
pub proof fn white_space_lies_low(c: char)
    ensures
        is_space(c) ==> c == ' ' || '\u{9}' <= c <= '\u{d}' || '\u{85}' <= c <= '\u{3000}',
        c == ' ' || '\u{9}' <= c <= '\u{d}' ==> is_space(c),
{
}

/// What a hexadecimal digit stands for.
pub open spec fn digit_value(c: char) -> int {
    if '0' <= c <= '9' {
        c as int - '0' as int
    } else {
        c as int - 'a' as int + 10
    }
}

/// A digit stands for the number it was made from.
pub proof fn digits_stand_for_numbers(n: int)
    requires
        0 <= n < 16,
    ensures
        digit_value(digit(n)) == n,
        n < 10 ==> '0' <= digit(n) <= '9',
        n >= 10 ==> 'a' <= digit(n) <= 'f',
{
}

/// A further digit makes a number ten times as great, and adds itself.
pub proof fn digits_are_read_from_the_left(s: Seq<char>, c: char)
    requires
        '0' <= c <= '9',
    ensures
        number(Seq::empty()) == 0,
        number(s.push(c)) == 10 * number(s) + (c as int - '0' as int),
{
    assert(s.push(c).drop_last() =~= s);
}

/// The decimal notation of a number reads as the number; it has digits only, and no zero in
/// front but for zero itself.
pub proof fn decimals_read_back(n: nat)
    ensures
        number(decimal(n)) == n,
        decimal(n).len() > 0,
        forall|i: int| 0 <= i < decimal(n).len() ==> '0' <= (#[trigger] decimal(n)[i]) <= '9',
        n == 0 ==> decimal(n).len() == 1,
        n > 0 ==> decimal(n)[0] != '0',
    decreases n,
{
    let d = decimal(n);
    if n < 10 {
        assert(d.drop_last() =~= Seq::empty());
        assert(number(d.drop_last()) == 0);
    } else {
        decimals_read_back(n / 10);
        let front = decimal(n / 10);
        assert(d.drop_last() =~= front);
        assert forall|i: int| 0 <= i < d.len() implies '0' <= (#[trigger] d[i]) <= '9' by {
            if i < front.len() {
                assert(d[i] == front[i]);
            }
        }
        assert(d[0] == front[0]);
    }
}

/// A number of tenths is written with one digit behind the point; what stands before it, and
/// that digit, read as the tenths.
pub proof fn tenths_read_back(n: nat)
    ensures
        tenths(n).len() >= 3,
        tenths(n)[tenths(n).len() - 2] == '.',
        ({
            let t = tenths(n);
            let front = t.take(t.len() - 2);
            let last = t[t.len() - 1];
            &&& '0' <= last <= '9'
            &&& front == decimal((n / 10) as nat)
            &&& 10 * number(front) + (last as int - '0' as int) == n
        }),
{
    decimals_read_back(n / 10);
    let t = tenths(n);
    assert(t.take(t.len() - 2) =~= decimal(n / 10));
}

/// What a text of hexadecimal digits stands for.
pub open spec fn hex_value(s: Seq<char>) -> int
    decreases s.len(),
{
    if s.len() == 0 {
        0
    } else {
        16 * hex_value(s.drop_last()) + digit_value(s.last())
    }
}

/// How many numbers there are with so many hexadecimal digits.
pub open spec fn sixteens(width: nat) -> nat
    decreases width,
{
    if width == 0 {
        1
    } else {
        16 * sixteens((width - 1) as nat)
    }
}

/// The last digits of a number in hexadecimal notation stand for the rest of it by the number
/// of numbers with so many digits: for the number itself, where it has no more.
pub proof fn hexadecimals_read_back(n: nat, width: nat)
    ensures
        hex(n, width).len() == width,
        forall|i: int|
            0 <= i < width ==> '0' <= (#[trigger] hex(n, width)[i]) <= '9' || 'a' <= hex(
                n,
                width,
            )[i] <= 'f',
        sixteens(width) > 0,
        hex_value(hex(n, width)) == n % sixteens(width),
    decreases width,
{
    if width > 0 {
        let less = (width - 1) as nat;
        hexadecimals_read_back(n / 16, less);
        let d = hex(n, width);
        let front = hex(n / 16, less);
        assert(d.drop_last() =~= front);
        assert forall|i: int| 0 <= i < width implies '0' <= (#[trigger] d[i]) <= '9' || 'a' <= d[i]
            <= 'f' by {
            if i < front.len() {
                assert(d[i] == front[i]);
            }
        }
        digits_stand_for_numbers((n % 16) as int);
        vstd::arithmetic::div_mod::lemma_mod_breakdown(n as int, 16, sixteens(less) as int);
    } else {
        assert(n % 1 == 0);
    }
}

/// A text of decimal digits, at least one.
pub open spec fn all_digits(s: Seq<char>) -> bool {
    s.len() > 0 && forall|i: int| 0 <= i < s.len() ==> '0' <= (#[trigger] s[i]) <= '9'
}

/// Exactly the texts of digits, with or without a plus sign in front, whose number is at most
/// 65535 are ports, and each is the port with that number.
pub proof fn ports_are_small_numbers(s: Seq<char>)
    ensures
        all_digits(s) ==> (port(s) is Some <==> number(s) <= 65535),
        all_digits(s) ==> (port(s) matches Some(p) ==> p == number(s)),
        all_digits(s) ==> port(seq!['+'] + s) == port(s),
        port(s) is Some ==> all_digits(s) || (s.len() > 1 && s[0] == '+' && all_digits(
            s.drop_first(),
        )),
{
    if all_digits(s) {
        assert(s[0] != '+');
        assert forall|i: int| 0 <= i < s.len() implies #[trigger] crate::text::is_digit(s[i]) by {}
        assert((seq!['+'] + s).drop_first() =~= s);
    }
    if port(s) is Some {
        let d = crate::text::unsigned(s);
        assert forall|i: int| 0 <= i < d.len() implies '0' <= (#[trigger] d[i]) <= '9' by {
            assert(crate::text::is_digit(d[i]));
        }
        assert(all_digits(d));
    }
}

/// The discovery port is the one that the setting writes; else the default.
pub proof fn the_setting_decides_the_port(setting: Option<Seq<char>>)
    ensures
        setting matches Some(s) && port(s) is Some ==> discovery_port(setting) == port(
            setting->0,
        )->0,
        setting matches Some(s) && port(s) is None ==> discovery_port(setting) == 48618,
        setting is None ==> discovery_port(setting) == 48618,
{
}

/// Rounding gives the nearest whole number, the greater one of two that are as near.
pub proof fn rounding_goes_to_the_nearest(n: nat, unit: nat)
    requires
        unit > 0,
    ensures
        2 * (unit * nearest(n, unit)) <= 2 * n + unit,
        2 * n < 2 * (unit * nearest(n, unit)) + unit,
{
    let q = n / unit;
    let r = n % unit;
    vstd::arithmetic::div_mod::lemma_fundamental_div_mod(n as int, unit as int);
    vstd::arithmetic::div_mod::lemma_mod_bound(n as int, unit as int);
    assert(unit * (q + 1) == unit * q + unit) by (nonlinear_arith);
}

/// A time in microseconds is told in milliseconds as the decimal fraction with the nearest
/// number of tenths.
pub proof fn times_are_told_in_tenths(micros: u64, k: nat, j: JsonView)
    requires
        200 * k <= 2 * micros + 100,
        2 * micros < 200 * k + 100,
        parsed(tenths(k)) == Some(j),
    ensures
        micros_json(micros) == j,
{
    rounding_goes_to_the_nearest(micros as nat, 100);
    assert(nearest(micros as nat, 100) == k);
}

/// A number of tenths is, as JSON, what its notation reads as.
pub proof fn tenths_are_what_they_read_as(n: nat)
    ensures
        parsed(tenths(n)) is Some ==> Some(tenths_json(n)) == parsed(tenths(n)),
{
}

/// A line is the text of its value and a line feed behind it, and nothing else.
pub proof fn lines_end_with_a_line_feed(j: JsonView)
    ensures
        vstd::utf8::valid_utf8(line_bytes(j)),
        vstd::utf8::decode_utf8(line_bytes(j)).len() == rendered(j).len() + 1,
        vstd::utf8::decode_utf8(line_bytes(j)).drop_last() == rendered(j),
        vstd::utf8::decode_utf8(line_bytes(j)).last() == '\n',
        line_bytes(j) == vstd::utf8::encode_utf8(vstd::utf8::decode_utf8(line_bytes(j))),
{
    let line = rendered(j).push('\n');
    vstd::utf8::encode_utf8_valid_utf8(line);
    vstd::utf8::encode_utf8_decode_utf8(line);
    assert(line.drop_last() =~= rendered(j));
}

/// The time that has passed since an instant, put on it, gives the present one; nothing has
/// passed since one that has not come yet.
pub proof fn elapsed_time_adds_up(since: u64, now: u64)
    ensures
        since <= now ==> since + elapsed(since, now) == now,
        now <= since ==> elapsed(since, now) == 0,
{
}

/// Times since the epoch are counted in milliseconds and nanoseconds, but for what 64 bits do
/// not hold.
pub proof fn times_since_the_epoch_are_counted(secs: u64, nanos: u32)
    ensures
        (secs * 1000 + nanos as int / 1_000_000 - epoch_millis(secs, nanos))
            % 0x1_0000_0000_0000_0000 == 0,
        (secs * 1_000_000_000 + nanos - epoch_nanos(secs, nanos)) % 0x1_0000_0000_0000_0000 == 0,
        secs <= 0xffff_ffff && nanos < 1_000_000_000 ==> epoch_millis(secs, nanos) == 1000 * secs
            + nanos as int / 1_000_000,
        secs <= 0xffff_ffff && nanos < 1_000_000_000 ==> epoch_nanos(secs, nanos) == 1_000_000_000
            * secs + nanos,
        millis_read(None) is None,
        millis_read(Some((secs, nanos))) == Some(epoch_millis(secs, nanos)),
{
}

/// A node that comes up is who its seed and its settings make it: an id of eight hexadecimal
/// digits that stand for the upper half of the mixed seed; the name that was chosen for it, or
/// else its host's, a hyphen, and the first four digits of the id. It knows nobody, has no
/// message, and has sent no probe.
pub proof fn a_node_comes_up_as_itself(
    tcp_port: u16,
    secs: u64,
    nanos: u32,
    pid: u32,
    chosen: Option<Seq<char>>,
    host: Seq<char>,
)
    ensures
        ({
            let at = epoch_nanos(secs, nanos);
            let seed = at ^ ((pid as u64) << 32u64);
            let up = fresh_at(tcp_port, Some((secs, nanos)), pid, chosen, host);
            &&& up == Some(fresh(tcp_port, at, pid, chosen, host))
            &&& fresh_at(tcp_port, None, pid, chosen, host) is None
            &&& up->0.id.len() == 8
            &&& hex_value(up->0.id) == (seed * 0x9E37_79B9_7F4A_7C15 % 0x1_0000_0000_0000_0000)
                / 0x1_0000_0000
            &&& forall|i: int|
                0 <= i < 8 ==> '0' <= (#[trigger] up->0.id[i]) <= '9' || 'a' <= up->0.id[i] <= 'f'
            &&& chosen is Some ==> up->0.name == chosen->0
            &&& chosen is None ==> up->0.name.len() == host.len() + 5
            &&& chosen is None ==> up->0.name.take(host.len() as int) == host
            &&& chosen is None ==> up->0.name[host.len() as int] == '-'
            &&& chosen is None ==> up->0.name.skip(host.len() as int + 1) == up->0.id.take(4)
            &&& up->0.tcp_port == tcp_port
            &&& up->0.peers.len() == 0
            &&& up->0.inbox.len() == 0
            &&& up->0.last_probe_at is None
        }),
{
    let at = epoch_nanos(secs, nanos);
    comes_up(tcp_port, at, pid, chosen, host);
}

/// The same for a node that comes up so many nanoseconds after the epoch.
pub proof fn comes_up(
    tcp_port: u16,
    at: u64,
    pid: u32,
    chosen: Option<Seq<char>>,
    host: Seq<char>,
)
    ensures
        ({
            let seed = at ^ ((pid as u64) << 32u64);
            let up = fresh(tcp_port, at, pid, chosen, host);
            &&& up.id.len() == 8
            &&& hex_value(up.id) == (seed * 0x9E37_79B9_7F4A_7C15 % 0x1_0000_0000_0000_0000)
                / 0x1_0000_0000
            &&& forall|i: int|
                0 <= i < 8 ==> '0' <= (#[trigger] up.id[i]) <= '9' || 'a' <= up.id[i] <= 'f'
            &&& chosen is Some ==> up.name == chosen->0
            &&& chosen is None ==> up.name.len() == host.len() + 5
            &&& chosen is None ==> up.name.take(host.len() as int) == host
            &&& chosen is None ==> up.name[host.len() as int] == '-'
            &&& chosen is None ==> up.name.skip(host.len() as int + 1) == up.id.take(4)
            &&& up.tcp_port == tcp_port
            &&& up.peers.len() == 0
            &&& up.inbox.len() == 0
            &&& up.last_probe_at is None
        }),
{
    let seed = at ^ ((pid as u64) << 32u64);
    let up = fresh(tcp_port, at, pid, chosen, host);
    let half = ((seed * 0x9E37_79B9_7F4A_7C15 % 0x1_0000_0000_0000_0000) / 0x1_0000_0000) as nat;
    hexadecimals_read_back(half, 8);
    assert(sixteens(8) == 0x1_0000_0000) by {
        reveal_with_fuel(sixteens, 9);
    }
    assert(half < 0x1_0000_0000);
    assert(up.id == node_id(at, pid));
    assert(up.id == hex(half, 8));
    if chosen is None {
        assert(up.name == node_name(chosen, host, up.id));
        assert(up.name.take(host.len() as int) =~= host);
        assert(up.name.skip(host.len() as int + 1) =~= up.id.take(4));
    }
}

}
