//! Hosts by their text: addresses, loopback hosts, and ports.

use crate::json_pointer::{all_digits, digits_value, parse_unsigned, unsigned_value};
use crate::text::{
    chars_of, digit_char, end_stripped, ends_with, find_char, first_of, is_digit, lower_text,
    same_text, split_on, split_text, stands_at, stands_here, strip_end, text_of, texts, to_lower,
};
use vstd::prelude::*;
use vstd::string::*;

verus! {

// ---------------------------------------------------------------------
// IPv4 addresses
// ---------------------------------------------------------------------

/// The number that one part of an IPv4 address writes: at most three digits,
/// without a leading zero, of a value that a byte holds.
pub open spec fn octet(s: Seq<char>) -> Option<nat> {
    if all_digits(s) && s.len() <= 3 && (s.len() == 1 || s[0] != '0') && digits_value(s) <= 255 {
        Some(digits_value(s))
    } else {
        None
    }
}

/// Whether a text is an IPv4 address: four numbers with dots between them.
pub open spec fn is_ipv4(s: Seq<char>) -> bool {
    let parts = split_on(s, '.');
    parts.len() == 4 && forall|i: int| 0 <= i < 4 ==> octet(#[trigger] parts[i]) is Some
}

fn octet_of(s: &str) -> (r: Option<u64>)
    ensures
        match r {
            Some(n) => octet(s@) == Some(n as nat),
            None => octet(s@) is None,
        },
{
    let chars = chars_of(s);
    if chars.len() == 0 || chars.len() > 3 {
        return None;
    }
    if chars.len() > 1 && chars[0] == '0' {
        return None;
    }
    let mut value: u64 = 0;
    let mut i: usize = 0;
    assert(s@.take(0) =~= Seq::<char>::empty());
    while i < chars.len()
        invariant
            i <= chars@.len(),
            chars@.len() <= 3,
            chars@ == s@,
            forall|j: int| 0 <= j < i ==> is_digit(#[trigger] s@[j]),
            value == digits_value(s@.take(i as int)),
            i == 0 ==> value == 0,
            i == 1 ==> value < 10,
            i == 2 ==> value < 100,
            i == 3 ==> value < 1000,
        decreases chars@.len() - i,
    {
        let c = chars[i];
        if !digit_char(c) {
            assert(!is_digit(s@[i as int]));
            return None;
        }
        assert(s@.take(i + 1).drop_last() =~= s@.take(i as int));
        value = value * 10 + (c as u32 - 48) as u64;
        i = i + 1;
    }
    assert(s@.take(i as int) =~= s@);
    if value <= 255 {
        Some(value)
    } else {
        None
    }
}

/// The numbers of an IPv4 address.
pub open spec fn octets(s: Seq<char>) -> Seq<nat> {
    split_on(s, '.').map_values(|p: Seq<char>| octet(p)->0)
}

/// The numbers of an IPv4 address.
fn octets_of(s: &str) -> (r: Option<Vec<u64>>)
    ensures
        match r {
            Some(v) => is_ipv4(s@) && v@.len() == 4 && forall|i: int|
                0 <= i < 4 ==> (#[trigger] v@[i]) as nat == octets(s@)[i] && v@[i] <= 255,
            None => !is_ipv4(s@),
        },
{
    let parts = split_text(s, '.');
    assert(texts(parts@).len() == parts@.len());
    if parts.len() != 4 {
        return None;
    }
    let mut out: Vec<u64> = Vec::new();
    let mut i: usize = 0;
    while i < 4
        invariant
            i <= 4,
            parts@.len() == 4,
            texts(parts@) == split_on(s@, '.'),
            out@.len() == i,
            forall|j: int|
                0 <= j < i ==> octet(#[trigger] split_on(s@, '.')[j]) == Some(out@[j] as nat),
        decreases 4 - i,
    {
        assert(texts(parts@)[i as int] == parts@[i as int]@);
        match octet_of(parts[i].as_str()) {
            Some(n) => {
                out.push(n);
            },
            None => {
                assert(octet(split_on(s@, '.')[i as int]) is None);
                return None;
            },
        }
        i = i + 1;
    }
    assert forall|j: int| 0 <= j < 4 implies (#[trigger] out@[j]) as nat == octets(s@)[j] && out@[j]
        <= 255 by {
        assert(octet(split_on(s@, '.')[j]) == Some(out@[j] as nat));
    }
    Some(out)
}

// ---------------------------------------------------------------------
// IPv6 addresses
// ---------------------------------------------------------------------

/// The value of a lower-case hexadecimal digit.
pub open spec fn hex_digit(c: char) -> Option<nat> {
    if is_digit(c) {
        Some((c as u32 - 48) as nat)
    } else if 'a' <= c && c <= 'f' {
        Some((c as u32 - 87) as nat)
    } else {
        None
    }
}

/// The value of a run of lower-case hexadecimal digits.
pub open spec fn hex_value(s: Seq<char>) -> nat
    decreases s.len(),
{
    if s.len() == 0 {
        0
    } else {
        hex_value(s.drop_last()) * 16 + (match hex_digit(s.last()) {
            Some(d) => d,
            None => 0,
        })
    }
}

/// The number that one group of an IPv6 address writes, in lower case: one to
/// four hexadecimal digits.
pub open spec fn hex_group(s: Seq<char>) -> Option<nat> {
    if 0 < s.len() <= 4 && forall|i: int| 0 <= i < s.len() ==> hex_digit(#[trigger] s[i]) is Some {
        Some(hex_value(s))
    } else {
        None
    }
}

fn hex_group_of(s: &str) -> (r: Option<u64>)
    ensures
        match r {
            Some(n) => hex_group(s@) == Some(n as nat),
            None => hex_group(s@) is None,
        },
{
    let chars = chars_of(s);
    if chars.len() == 0 || chars.len() > 4 {
        return None;
    }
    let mut value: u64 = 0;
    let mut i: usize = 0;
    assert(s@.take(0) =~= Seq::<char>::empty());
    while i < chars.len()
        invariant
            i <= chars@.len(),
            chars@.len() <= 4,
            chars@ == s@,
            forall|j: int| 0 <= j < i ==> hex_digit(#[trigger] s@[j]) is Some,
            value == hex_value(s@.take(i as int)),
            i == 0 ==> value == 0,
            i == 1 ==> value < 16,
            i == 2 ==> value < 256,
            i == 3 ==> value < 4096,
            i == 4 ==> value < 65536,
        decreases chars@.len() - i,
    {
        let c = chars[i];
        let digit: u64 = if digit_char(c) {
            (c as u32 - 48) as u64
        } else if 'a' <= c && c <= 'f' {
            (c as u32 - 87) as u64
        } else {
            assert(hex_digit(s@[i as int]) is None);
            return None;
        };
        assert(s@.take(i + 1).drop_last() =~= s@.take(i as int));
        value = value * 16 + digit;
        i = i + 1;
    }
    assert(s@.take(i as int) =~= s@);
    Some(value)
}

/// The two groups that an IPv4 address stands for at the end of an IPv6 one.
pub open spec fn ipv4_groups(s: Seq<char>) -> Seq<nat> {
    let o = octets(s);
    seq![o[0] * 256 + o[1], o[2] * 256 + o[3]]
}

/// The numbers of the first `n` groups, where all of them are groups.
pub open spec fn groups_upto(pieces: Seq<Seq<char>>, n: nat) -> Option<Seq<nat>>
    decreases n,
{
    if n == 0 {
        Some(Seq::empty())
    } else {
        match (groups_upto(pieces, (n - 1) as nat), hex_group(pieces[n - 1])) {
            (Some(before), Some(g)) => Some(before.push(g)),
            _ => None,
        }
    }
}

/// The numbers that a run of groups writes, colons between them; the last may
/// be an IPv4 address where that is allowed.
pub open spec fn groups_in(s: Seq<char>, ipv4_allowed: bool) -> Option<Seq<nat>> {
    let pieces = split_on(s, ':');
    let n = pieces.len();
    if s.len() == 0 {
        Some(Seq::empty())
    } else if ipv4_allowed && is_ipv4(pieces[n - 1]) {
        match groups_upto(pieces, (n - 1) as nat) {
            Some(before) => Some(before + ipv4_groups(pieces[n - 1])),
            None => None,
        }
    } else {
        groups_upto(pieces, n)
    }
}

/// The first position, at or after `from`, at which a text stands in another;
/// the length of that where there is none.
pub open spec fn part_from(s: Seq<char>, part: Seq<char>, from: int) -> int
    decreases s.len() - from,
{
    if from >= s.len() {
        s.len() as int
    } else if stands_at(s, from, part) {
        from
    } else {
        part_from(s, part, from + 1)
    }
}

pub open spec fn zeros(n: nat) -> Seq<nat> {
    Seq::new(n, |i: int| 0nat)
}

/// The eight numbers of an IPv6 address in lower case: eight groups, or fewer
/// with `::` once in place of one or more zeros.
pub open spec fn ipv6_groups(s: Seq<char>) -> Option<Seq<nat>> {
    let gap = part_from(s, "::"@, 0);
    if gap >= s.len() {
        match groups_in(s, true) {
            Some(g) => if g.len() == 8 {
                Some(g)
            } else {
                None
            },
            None => None,
        }
    } else {
        match (groups_in(s.take(gap), false), groups_in(s.skip(gap + 2), true)) {
            (Some(head), Some(tail)) => if head.len() + tail.len() <= 7 {
                Some(head + zeros((8 - head.len() - tail.len()) as nat) + tail)
            } else {
                None
            },
            _ => None,
        }
    }
}

/// The numbers of machine words.
pub open spec fn numbers(v: Seq<u64>) -> Seq<nat> {
    v.map_values(|n: u64| n as nat)
}

fn groups_of(s: &str, ipv4_allowed: bool) -> (r: Option<Vec<u64>>)
    ensures
        match r {
            Some(v) => groups_in(s@, ipv4_allowed) == Some(numbers(v@)),
            None => groups_in(s@, ipv4_allowed) is None,
        },
{
    let mut out: Vec<u64> = Vec::new();
    assert(numbers(out@) =~= Seq::<nat>::empty());
    if s.is_empty() {
        return Some(out);
    }
    let pieces = split_text(s, ':');
    let ghost p = split_on(s@, ':');
    assert(texts(pieces@).len() == pieces@.len());
    let n: usize = pieces.len();
    assert(texts(pieces@)[n - 1] == pieces@[n - 1]@);
    let trailing = if ipv4_allowed {
        octets_of(pieces[n - 1].as_str())
    } else {
        None
    };
    let hex_count: usize = if trailing.is_some() {
        n - 1
    } else {
        n
    };
    let mut i: usize = 0;
    while i < hex_count
        invariant
            i <= hex_count,
            s@.len() > 0,
            0 < n == pieces@.len(),
            (trailing is Some) == (ipv4_allowed && is_ipv4(p[n - 1])),
            hex_count == if trailing is Some {
                n - 1
            } else {
                n as int
            },
            p == split_on(s@, ':'),
            texts(pieces@) == p,
            groups_upto(p, i as nat) == Some(numbers(out@)),
        decreases hex_count - i,
    {
        assert(texts(pieces@)[i as int] == pieces@[i as int]@);
        let ghost before = out@;
        match hex_group_of(pieces[i].as_str()) {
            Some(g) => {
                out.push(g);
                assert(numbers(out@) =~= numbers(before).push(g as nat));
            },
            None => {
                proof {
                    lost_group_stays(p, (i + 1) as nat, hex_count as nat);
                }
                return None;
            },
        }
        i = i + 1;
    }
    match trailing {
        Some(o) => {
            let ghost before = out@;
            let ghost last = ipv4_groups(p[n - 1]);
            out.push(o[0] * 256 + o[1]);
            out.push(o[2] * 256 + o[3]);
            assert(numbers(out@) =~= numbers(before) + last);
        },
        None => {},
    }
    Some(out)
}

proof fn lost_group_stays(pieces: Seq<Seq<char>>, m: nat, n: nat)
    requires
        m <= n,
        groups_upto(pieces, m) is None,
    ensures
        groups_upto(pieces, n) is None,
    decreases n,
{
    if m < n {
        lost_group_stays(pieces, m, (n - 1) as nat);
    }
}

/// The numbers of the IPv6 loopback address.
pub open spec fn loopback_groups() -> Seq<nat> {
    seq![0nat, 0nat, 0nat, 0nat, 0nat, 0nat, 0nat, 1nat]
}

fn find_part(chars: &Vec<char>, part: &Vec<char>) -> (r: usize)
    ensures
        r == part_from(chars@, part@, 0),
        r <= chars@.len(),
        r < chars@.len() ==> stands_at(chars@, r as int, part@),
{
    let mut i: usize = 0;
    while i < chars.len()
        invariant
            i <= chars@.len(),
            part_from(chars@, part@, 0) == part_from(chars@, part@, i as int),
        decreases chars@.len() - i,
    {
        if stands_here(chars, i, part) {
            return i;
        }
        i = i + 1;
    }
    i
}

/// Whether a list is all zeros but for a one at its end.
fn ends_in_one(v: &Vec<u64>) -> (r: bool)
    ensures
        r == (v@.len() > 0 && numbers(v@) == zeros((v@.len() - 1) as nat).push(1nat)),
{
    if v.len() == 0 {
        return false;
    }
    let last: usize = v.len() - 1;
    let ghost want = zeros(last as nat).push(1nat);
    let mut i: usize = 0;
    while i < last
        invariant
            i <= last,
            last == v@.len() - 1,
            want == zeros(last as nat).push(1nat),
            forall|j: int| 0 <= j < i ==> v@[j] == 0,
        decreases last - i,
    {
        if v[i] != 0 {
            assert(numbers(v@)[i as int] != want[i as int]);
            return false;
        }
        i = i + 1;
    }
    if v[last] != 1 {
        assert(numbers(v@)[last as int] != want[last as int]);
        return false;
    }
    assert(numbers(v@) =~= want);
    true
}

/// Whether a list is all zeros.
fn all_zero(v: &Vec<u64>) -> (r: bool)
    ensures
        r == (numbers(v@) == zeros(v@.len())),
{
    let ghost want = zeros(v@.len());
    let mut i: usize = 0;
    while i < v.len()
        invariant
            i <= v@.len(),
            want == zeros(v@.len()),
            forall|j: int| 0 <= j < i ==> v@[j] == 0,
        decreases v@.len() - i,
    {
        if v[i] != 0 {
            assert(numbers(v@)[i as int] != want[i as int]);
            return false;
        }
        i = i + 1;
    }
    assert(numbers(v@) =~= want);
    true
}

proof fn loopback_with_gap(h: Seq<nat>, t: Seq<nat>)
    requires
        h.len() + t.len() <= 7,
    ensures
        (h + zeros((8 - h.len() - t.len()) as nat) + t == loopback_groups()) == (h == zeros(h.len())
            && t.len() > 0 && t == zeros((t.len() - 1) as nat).push(1nat)),
{
    let middle = zeros((8 - h.len() - t.len()) as nat);
    let whole = h + middle + t;
    let want = zeros(7).push(1nat);
    assert(loopback_groups() =~= want);
    if whole == want {
        assert forall|i: int| 0 <= i < h.len() implies h[i] == 0 by {
            assert(whole[i] == h[i]);
        }
        assert(h =~= zeros(h.len()));
        if t.len() == 0 {
            assert(whole[7] == middle[7 - h.len()]);
        } else {
            assert forall|i: int| 0 <= i < t.len() implies t[i] == want[8 - t.len() + i] by {
                assert(whole[8 - t.len() + i] == t[i]);
            }
            assert(t =~= zeros((t.len() - 1) as nat).push(1nat));
        }
    }
    if h == zeros(h.len()) && t.len() > 0 && t == zeros((t.len() - 1) as nat).push(1nat) {
        assert(whole =~= want);
    }
}

/// Whether a lower-case text is the IPv6 loopback address.
fn is_ipv6_loopback(s: &str) -> (r: bool)
    ensures
        r == (ipv6_groups(s@) == Some(loopback_groups())),
{
    let chars = chars_of(s);
    let colons = chars_of("::");
    proof {
        reveal_strlit("::");
    }
    let gap = find_part(&chars, &colons);
    if gap >= chars.len() {
        return match groups_of(s, true) {
            Some(v) => {
                let r = v.len() == 8 && ends_in_one(&v);
                proof {
                    assert(numbers(v@).len() == v@.len());
                    assert(loopback_groups() =~= zeros(7).push(1nat));
                }
                r
            },
            None => false,
        };
    }
    let head_text = text_of(&chars, 0, gap);
    let tail_text = text_of(&chars, gap + 2, chars.len());
    assert(head_text@ =~= s@.take(gap as int));
    assert(tail_text@ =~= s@.skip(gap + 2));
    match (groups_of(head_text.as_str(), false), groups_of(tail_text.as_str(), true)) {
        (Some(head), Some(tail)) => {
            let ghost h = numbers(head@);
            let ghost t = numbers(tail@);
            assert(h.len() == head@.len() && t.len() == tail@.len());
            if head.len() > 7 || tail.len() > 7 - head.len() {
                return false;
            }
            let r = all_zero(&head) && ends_in_one(&tail);
            proof {
                loopback_with_gap(h, t);
            }
            r
        },
        _ => false,
    }
}

// ---------------------------------------------------------------------
// Loopback hosts
// ---------------------------------------------------------------------

/// A text without the characters `c` at its start.
pub open spec fn start_stripped(s: Seq<char>, c: char) -> Seq<char>
    decreases s.len(),
{
    if s.len() > 0 && s[0] == c {
        start_stripped(s.skip(1), c)
    } else {
        s
    }
}

/// A text without the characters `c` at its start.
pub fn strip_start(s: &str, c: char) -> (r: String)
    ensures
        r@ == start_stripped(s@, c),
{
    let chars = chars_of(s);
    let mut start: usize = 0;
    assert(s@.skip(0) =~= s@);
    while start < chars.len() && chars[start] == c
        invariant
            start <= chars@.len(),
            chars@ == s@,
            start_stripped(s@, c) == start_stripped(s@.skip(start as int), c),
        decreases chars@.len() - start,
    {
        assert(s@.skip(start as int).skip(1) =~= s@.skip(start + 1));
        start = start + 1;
    }
    let r = text_of(&chars, start, chars.len());
    assert(r@ =~= s@.skip(start as int));
    r
}

/// Whether a host is the machine itself, by its text alone: `localhost` and
/// the names below it, the IPv4 addresses that start with 127, and `::1`.
pub open spec fn is_loopback(host: Seq<char>) -> bool {
    let lower = lower_text(end_stripped(start_stripped(host, '['), ']'));
    if lower == "localhost"@ || stands_at(
        lower,
        lower.len() - ".localhost"@.len(),
        ".localhost"@,
    ) {
        true
    } else if is_ipv4(lower) {
        octets(lower)[0] == 127
    } else {
        ipv6_groups(lower) == Some(loopback_groups())
    }
}

/// Whether a host is the machine itself, by its text alone.
pub fn is_loopback_host(host: &str) -> (r: bool)
    ensures
        r == is_loopback(host@),
{
    let opened = strip_start(host, '[');
    let bare = strip_end(opened.as_str(), ']');
    let lower = to_lower(bare.as_str());
    if same_text(lower.as_str(), "localhost") || ends_with(lower.as_str(), ".localhost") {
        return true;
    }
    match octets_of(lower.as_str()) {
        Some(v) => {
            return v[0] == 127;
        },
        None => {},
    }
    is_ipv6_loopback(lower.as_str())
}

// ---------------------------------------------------------------------
// Hosts with ports
// ---------------------------------------------------------------------

/// The port that a text writes.
pub open spec fn port_value(s: Seq<char>) -> Option<u16> {
    match unsigned_value(s) {
        Some(n) => if n <= 65535 {
            Some(n as u16)
        } else {
            None
        },
        None => None,
    }
}

fn port_of(s: &str) -> (r: Option<u16>)
    ensures
        r == port_value(s@),
{
    match parse_unsigned(s) {
        Some(n) => if n <= 65535 {
            Some(n as u16)
        } else {
            None
        },
        None => None,
    }
}

/// The last position of a character; none where it does not occur.
pub open spec fn last_at(s: Seq<char>, c: char) -> Option<int>
    decreases s.len(),
{
    if s.len() == 0 {
        None
    } else if s.last() == c {
        Some(s.len() - 1)
    } else {
        last_at(s.drop_last(), c)
    }
}

/// The host and the port of an entry. An IPv6 address with a port is in
/// brackets, which stay with the host; an entry without a port is a host.
pub open spec fn host_and_port(entry: Seq<char>) -> Option<(Seq<char>, u16)> {
    if entry.len() > 0 && entry[0] == '[' {
        let end = first_of(entry, 0, seq![']']);
        if end + 1 < entry.len() && entry[end + 1] == ':' {
            match port_value(entry.skip(end + 2)) {
                Some(p) => Some((entry.take(end + 1), p)),
                None => None,
            }
        } else {
            None
        }
    } else {
        match last_at(entry, ':') {
            Some(at) => if entry.take(at).contains(':') {
                None
            } else {
                match port_value(entry.skip(at + 1)) {
                    Some(p) => Some((entry.take(at), p)),
                    None => None,
                }
            },
            None => None,
        }
    }
}

/// Splits an entry into its host and its port.
pub fn split_host_port(entry: &str) -> (r: Option<(String, u16)>)
    ensures
        match r {
            Some(x) => host_and_port(entry@) == Some((x.0@, x.1)),
            None => host_and_port(entry@) is None,
        },
{
    let chars = chars_of(entry);
    if chars.len() > 0 && chars[0] == '[' {
        let end = find_char(&chars, 0, ']');
        if end >= chars.len() || end + 1 >= chars.len() || chars[end + 1] != ':' {
            return None;
        }
        let host = text_of(&chars, 0, end + 1);
        let port = text_of(&chars, end + 2, chars.len());
        assert(host@ =~= entry@.take(end + 1));
        assert(port@ =~= entry@.skip(end + 2));
        return match port_of(port.as_str()) {
            Some(p) => Some((host, p)),
            None => None,
        };
    }
    let mut at: usize = chars.len();
    assert(entry@.take(at as int) =~= entry@);
    while at > 0 && chars[at - 1] != ':'
        invariant
            at <= chars@.len(),
            chars@ == entry@,
            last_at(entry@, ':') == last_at(entry@.take(at as int), ':'),
        decreases at,
    {
        assert(entry@.take(at as int).drop_last() =~= entry@.take(at - 1));
        at = at - 1;
    }
    if at == 0 {
        return None;
    }
    let colon: usize = at - 1;
    assert(last_at(entry@, ':') == Some(colon as int));
    let host = text_of(&chars, 0, colon);
    assert(host@ =~= entry@.take(colon as int));
    let first = find_char(&chars, 0, ':');
    if first < colon {
        assert(entry@.take(colon as int)[first as int] == ':');
        return None;
    }
    assert(!entry@.take(colon as int).contains(':'));
    let port = text_of(&chars, at, chars.len());
    assert(port@ =~= entry@.skip(colon + 1));
    match port_of(port.as_str()) {
        Some(p) => Some((host, p)),
        None => None,
    }
}

} // verus!
