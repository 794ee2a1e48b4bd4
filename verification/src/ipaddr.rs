//! IP address literals: parsing (the textual forms std's `IpAddr` accepts),
//! canonical rendering, and the ranges the SSRF guard refuses.

use vstd::prelude::*;
use crate::text::{decimal, hex, push_char, push_decimal, push_hex, push_str};

verus! {

broadcast use vstd::string::group_string_axioms;

// ---------------------------------------------------------------------------
// Grammar
// ---------------------------------------------------------------------------

pub open spec fn is_dec_digit(c: char) -> bool {
    '0' <= c && c <= '9'
}

pub open spec fn is_hex_digit(c: char) -> bool {
    ('0' <= c && c <= '9') || ('a' <= c && c <= 'f') || ('A' <= c && c <= 'F')
}

pub open spec fn hex_value(c: char) -> nat {
    if '0' <= c && c <= '9' {
        (c as u32 - '0' as u32) as nat
    } else if 'a' <= c && c <= 'f' {
        (c as u32 - 'a' as u32 + 10) as nat
    } else {
        (c as u32 - 'A' as u32 + 10) as nat
    }
}

/// The end of the run of digits (decimal, or hexadecimal when `hexa`) that
/// starts at `i`.
pub open spec fn digits_end(s: Seq<char>, i: int, hexa: bool) -> int
    decreases s.len() - i,
    when 0 <= i <= s.len()
{
    if i < s.len() && (if hexa { is_hex_digit(s[i]) } else { is_dec_digit(s[i]) }) {
        digits_end(s, i + 1, hexa)
    } else {
        i
    }
}

/// The value of the digits `s[i..e]` in base 10 or 16.
pub open spec fn digits_value(s: Seq<char>, i: int, e: int, hexa: bool) -> nat
    decreases e - i,
    when i <= e
{
    if e <= i {
        0
    } else {
        digits_value(s, i, e - 1, hexa) * (if hexa { 16nat } else { 10nat }) + hex_value(s[e - 1])
    }
}

/// A decimal octet at `i`: one to three digits, no leading zero unless it is
/// the single digit `0`, value at most 255. Gives the value and the end.
pub open spec fn dec_octet(s: Seq<char>, i: int) -> Option<(u8, int)> {
    let e = digits_end(s, i, false);
    if e == i || e - i > 3 || (e - i > 1 && s[i] == '0') || digits_value(s, i, e, false) > 255 {
        None
    } else {
        Some((digits_value(s, i, e, false) as u8, e))
    }
}

/// A hexadecimal group at `i`: one to four hex digits. Gives the value and
/// the end.
pub open spec fn hex_group(s: Seq<char>, i: int) -> Option<(u16, int)> {
    let e = digits_end(s, i, true);
    if e == i || e - i > 4 {
        None
    } else {
        Some((digits_value(s, i, e, true) as u16, e))
    }
}

/// Dotted-quad octets from position `i` on: `k` more octets are expected,
/// separated by `.`. Gives the octets and the end.
pub open spec fn octets_at(s: Seq<char>, i: int, k: nat) -> Option<(Seq<u8>, int)>
    decreases k,
    when 0 <= i <= s.len()
{
    match dec_octet(s, i) {
        None => None,
        Some((v, e)) => if k <= 1 {
            Some((seq![v], e))
        } else if e < s.len() && s[e] == '.' {
            match octets_at(s, e + 1, (k - 1) as nat) {
                Some((rest, end)) => Some((seq![v] + rest, end)),
                None => None,
            }
        } else {
            None
        },
    }
}

/// An IPv4 address written `a.b.c.d` starting at `i`.
pub open spec fn ipv4_at(s: Seq<char>, i: int) -> Option<(Seq<u8>, int)> {
    if 0 <= i <= s.len() {
        octets_at(s, i, 4)
    } else {
        None
    }
}

/// The whole text is an IPv4 address.
pub open spec fn spec_parse_ipv4(s: Seq<char>) -> Option<Seq<u8>> {
    match ipv4_at(s, 0) {
        Some((o, e)) => if e == s.len() { Some(o) } else { None },
        None => None,
    }
}

/// Two octets as one 16-bit group.
pub open spec fn join_octets(hi: u8, lo: u8) -> u16 {
    (hi as nat * 256 + lo as nat) as u16
}

/// An embedded IPv4 address covering exactly `s[a..b]`, as two groups.
pub open spec fn embedded_v4(s: Seq<char>, a: int, b: int, v4ok: bool) -> Option<Seq<u16>> {
    if v4ok {
        match ipv4_at(s, a) {
            Some((o, e)) => if e == b && o.len() == 4 {
                Some(seq![join_octets(o[0], o[1]), join_octets(o[2], o[3])])
            } else {
                None
            },
            None => None,
        }
    } else {
        None
    }
}

/// Colon-separated IPv6 items covering exactly `s[a..b]`, where `b > a`: hex
/// groups, and, when `v4ok`, a final embedded IPv4 address (two groups).
pub open spec fn items_nonempty(s: Seq<char>, a: int, b: int, v4ok: bool) -> Option<Seq<u16>>
    decreases b - a,
    when 0 <= a < b <= s.len()
{
    let v4 = embedded_v4(s, a, b, v4ok);
    if v4 is Some {
        v4
    } else {
        proof {
            lemma_digits_end_bounds(s, a, true);
        }
        match hex_group(s, a) {
            Some((v, e)) => if e == b {
                Some(seq![v])
            } else if e < b && s[e] == ':' && e + 1 < b {
                match items_nonempty(s, e + 1, b, v4ok) {
                    Some(rest) => Some(seq![v] + rest),
                    None => None,
                }
            } else {
                None
            },
            None => None,
        }
    }
}

/// Colon-separated IPv6 items covering exactly `s[a..b]` (possibly none).
pub open spec fn items(s: Seq<char>, a: int, b: int, v4ok: bool) -> Option<Seq<u16>> {
    if a == b {
        Some(Seq::empty())
    } else if 0 <= a < b <= s.len() {
        items_nonempty(s, a, b, v4ok)
    } else {
        None
    }
}

/// The first `::` in `s`.
pub open spec fn first_double_colon(s: Seq<char>) -> Option<int> {
    crate::validators::first_from(s, "::"@, 0)
}

/// The whole text is an IPv6 address: eight groups (the last two possibly
/// written as an IPv4 address), or a `::` standing for at least one zero group
/// between a head of plain groups and a tail that may end in an IPv4 address.
pub open spec fn spec_parse_ipv6(s: Seq<char>) -> Option<Seq<u16>> {
    match first_double_colon(s) {
        None => match items(s, 0, s.len() as int, true) {
            Some(g) => if g.len() == 8 { Some(g) } else { None },
            None => None,
        },
        Some(d) => match (items(s, 0, d, false), items(s, d + 2, s.len() as int, true)) {
            (Some(h), Some(t)) => if h.len() + t.len() <= 7 {
                Some(h + Seq::new((8 - h.len() - t.len()) as nat, |_i: int| 0u16) + t)
            } else {
                None
            },
            _ => None,
        },
    }
}

/// An IP literal: four octets or eight 16-bit groups.
#[derive(Debug, Clone)]
pub enum IpLiteral {
    V4([u8; 4]),
    V6([u16; 8]),
}

/// `r` is what `s` parses to as an IP address, IPv4 being tried first (the
/// forms std's `IpAddr` parser accepts).
pub open spec fn parses_to(s: Seq<char>, r: Option<IpLiteral>) -> bool {
    match r {
        Some(IpLiteral::V4(o)) => spec_parse_ipv4(s) == Some(o@),
        Some(IpLiteral::V6(g)) => spec_parse_ipv4(s) is None && spec_parse_ipv6(s) == Some(g@),
        None => spec_parse_ipv4(s) is None && spec_parse_ipv6(s) is None,
    }
}

// ---------------------------------------------------------------------------
// Parsing
// ---------------------------------------------------------------------------

/// A parse result whose end position is a machine integer, seen with a
/// mathematical end position.
pub open spec fn with_int_end<T>(r: Option<(T, usize)>) -> Option<(T, int)> {
    match r {
        Some((v, e)) => Some((v, e as int)),
        None => None,
    }
}

pub open spec fn pow_radix(hexa: bool, n: nat) -> nat
    decreases n,
{
    if n == 0 {
        1
    } else {
        pow_radix(hexa, (n - 1) as nat) * (if hexa { 16nat } else { 10nat })
    }
}

pub proof fn lemma_digits_end_bounds(s: Seq<char>, i: int, hexa: bool)
    requires
        0 <= i <= s.len(),
    ensures
        i <= digits_end(s, i, hexa) <= s.len(),
        forall|k: int| i <= k < digits_end(s, i, hexa) ==> (if hexa { is_hex_digit(s[k]) } else { is_dec_digit(s[k]) }),
    decreases s.len() - i,
{
    if i < s.len() && (if hexa { is_hex_digit(s[i]) } else { is_dec_digit(s[i]) }) {
        lemma_digits_end_bounds(s, i + 1, hexa);
    }
}

fn is_digit_exec(c: char, hexa: bool) -> (b: bool)
    ensures
        b == (if hexa { is_hex_digit(c) } else { is_dec_digit(c) }),
{
    if hexa {
        ('0' <= c && c <= '9') || ('a' <= c && c <= 'f') || ('A' <= c && c <= 'F')
    } else {
        '0' <= c && c <= '9'
    }
}

fn digit_value_exec(c: char) -> (v: u32)
    requires
        is_hex_digit(c),
    ensures
        v == hex_value(c),
        v < 16,
{
    if '0' <= c && c <= '9' {
        (c as u32) - ('0' as u32)
    } else if 'a' <= c && c <= 'f' {
        (c as u32) - ('a' as u32) + 10
    } else {
        (c as u32) - ('A' as u32) + 10
    }
}

/// The end of the digit run at `i`, and its value when it has at most `max`
/// digits.
fn digit_run(s: &[char], i: usize, hexa: bool, max: usize) -> (r: (usize, u32))
    requires
        i <= s@.len(),
        1 <= max <= 4,
    ensures
        r.0 == digits_end(s@, i as int, hexa),
        i <= r.0 <= s@.len(),
        r.0 - i <= max ==> r.1 == digits_value(s@, i as int, r.0 as int, hexa),
        r.0 - i <= max ==> r.1 < pow_radix(hexa, (r.0 - i) as nat),
{
    proof {
        lemma_digits_end_bounds(s@, i as int, hexa);
    }
    let n = s.len();
    let mut j = i;
    let mut acc: u32 = 0;
    while j < n && is_digit_exec(s[j], hexa)
        invariant
            n == s@.len(),
            i <= j <= n,
            digits_end(s@, i as int, hexa) == digits_end(s@, j as int, hexa),
            j - i <= max ==> acc == digits_value(s@, i as int, j as int, hexa),
            j - i <= max ==> acc < pow_radix(hexa, (j - i) as nat),
            1 <= max <= 4,
        decreases n - j,
    {
        if j - i < max {
            let d = digit_value_exec(s[j]);
            assert(pow_radix(hexa, (j + 1 - i) as nat) == pow_radix(hexa, (j - i) as nat) * (if hexa { 16nat } else { 10nat }));
            assert(pow_radix(hexa, 4) <= 65536) by {
                reveal_with_fuel(pow_radix, 5);
            }
            assert(pow_radix(hexa, (j - i) as nat) <= pow_radix(hexa, 3)) by {
                lemma_pow_mono(hexa, (j - i) as nat, 3);
            }
            assert(pow_radix(hexa, 3) <= 4096) by {
                reveal_with_fuel(pow_radix, 4);
            }
            if hexa {
                acc = acc * 16 + d;
            } else {
                acc = acc * 10 + d;
            }
        }
        j += 1;
    }
    (j, acc)
}

proof fn lemma_pow_mono(hexa: bool, a: nat, b: nat)
    requires
        a <= b,
    ensures
        pow_radix(hexa, a) <= pow_radix(hexa, b),
    decreases b,
{
    if a < b {
        lemma_pow_mono(hexa, a, (b - 1) as nat);
    }
}

fn dec_octet_exec(s: &[char], i: usize) -> (r: Option<(u8, usize)>)
    requires
        i <= s@.len(),
    ensures
        with_int_end(r) == dec_octet(s@, i as int),
{
    let (e, v) = digit_run(s, i, false, 3);
    if e == i || e - i > 3 || (e - i > 1 && s[i] == '0') || v > 255 {
        None
    } else {
        Some((v as u8, e))
    }
}

fn hex_group_exec(s: &[char], i: usize) -> (r: Option<(u16, usize)>)
    requires
        i <= s@.len(),
    ensures
        with_int_end(r) == hex_group(s@, i as int),
{
    let (e, v) = digit_run(s, i, true, 4);
    if e == i || e - i > 4 {
        None
    } else {
        proof {
            assert(pow_radix(true, (e - i) as nat) <= pow_radix(true, 4)) by {
                lemma_pow_mono(true, (e - i) as nat, 4);
            }
            assert(pow_radix(true, 4) == 65536) by {
                reveal_with_fuel(pow_radix, 5);
            }
        }
        Some((v as u16, e))
    }
}


/// Spec-level view of an octet-run result with a machine end position.
pub open spec fn octets_result(r: Option<(Vec<u8>, usize)>) -> Option<(Seq<u8>, int)> {
    match r {
        Some((o, e)) => Some((o@, e as int)),
        None => None,
    }
}

fn octets_at_exec(s: &[char], i: usize, k: usize) -> (r: Option<(Vec<u8>, usize)>)
    requires
        i <= s@.len(),
        1 <= k <= 4,
    ensures
        octets_result(r) == octets_at(s@, i as int, k as nat),
        r matches Some((o, e)) ==> e <= s@.len() && o@.len() == k,
    decreases k,
{
    proof {
        lemma_digits_end_bounds(s@, i as int, false);
    }
    match dec_octet_exec(s, i) {
        None => None,
        Some((v, e)) => {
            if k <= 1 {
                let mut o: Vec<u8> = Vec::new();
                o.push(v);
                assert(o@ =~= seq![v]);
                Some((o, e))
            } else if e < s.len() && s[e] == '.' {
                match octets_at_exec(s, e + 1, k - 1) {
                    Some((rest, end)) => {
                        let mut o: Vec<u8> = Vec::new();
                        o.push(v);
                        let mut j: usize = 0;
                        while j < rest.len()
                            invariant
                                j <= rest@.len(),
                                o@ == seq![v] + rest@.take(j as int),
                            decreases rest@.len() - j,
                        {
                            o.push(rest[j]);
                            assert(rest@.take(j + 1) =~= rest@.take(j as int).push(rest@[j as int]));
                            j += 1;
                        }
                        assert(rest@.take(rest@.len() as int) =~= rest@);
                        Some((o, end))
                    },
                    None => None,
                }
            } else {
                None
            }
        },
    }
}

/// Parses the whole of `s` as an IPv4 address.
pub fn parse_ipv4(s: &[char]) -> (r: Option<Vec<u8>>)
    ensures
        match r {
            Some(o) => spec_parse_ipv4(s@) == Some(o@) && o@.len() == 4,
            None => spec_parse_ipv4(s@) is None,
        },
{
    match octets_at_exec(s, 0, 4) {
        Some((o, e)) => if e == s.len() {
            Some(o)
        } else {
            None
        },
        None => None,
    }
}

fn embedded_v4_exec(s: &[char], a: usize, b: usize, v4ok: bool) -> (r: Option<Vec<u16>>)
    requires
        a <= b <= s@.len(),
    ensures
        match r {
            Some(g) => embedded_v4(s@, a as int, b as int, v4ok) == Some(g@),
            None => embedded_v4(s@, a as int, b as int, v4ok) is None,
        },
{
    if !v4ok {
        return None;
    }
    match octets_at_exec(s, a, 4) {
        Some((o, e)) => {
            if e == b && o.len() == 4 {
                let hi: u16 = (o[0] as u16) * 256 + (o[1] as u16);
                let lo: u16 = (o[2] as u16) * 256 + (o[3] as u16);
                let mut g: Vec<u16> = Vec::new();
                g.push(hi);
                g.push(lo);
                assert(g@ =~= seq![join_octets(o@[0], o@[1]), join_octets(o@[2], o@[3])]);
                Some(g)
            } else {
                None
            }
        },
        None => None,
    }
}

fn items_nonempty_exec(s: &[char], a: usize, b: usize, v4ok: bool) -> (r: Option<Vec<u16>>)
    requires
        a < b <= s@.len(),
    ensures
        match r {
            Some(g) => items_nonempty(s@, a as int, b as int, v4ok) == Some(g@),
            None => items_nonempty(s@, a as int, b as int, v4ok) is None,
        },
    decreases b - a,
{
    proof {
        lemma_digits_end_bounds(s@, a as int, true);
    }
    let v4 = embedded_v4_exec(s, a, b, v4ok);
    if v4.is_some() {
        return v4;
    }
    match hex_group_exec(s, a) {
        Some((v, e)) => {
            if e == b {
                let mut g: Vec<u16> = Vec::new();
                g.push(v);
                assert(g@ =~= seq![v]);
                Some(g)
            } else if e < b && s[e] == ':' && e + 1 < b {
                match items_nonempty_exec(s, e + 1, b, v4ok) {
                    Some(rest) => {
                        let mut g: Vec<u16> = Vec::new();
                        g.push(v);
                        let mut j: usize = 0;
                        while j < rest.len()
                            invariant
                                j <= rest@.len(),
                                g@ == seq![v] + rest@.take(j as int),
                            decreases rest@.len() - j,
                        {
                            g.push(rest[j]);
                            assert(rest@.take(j + 1) =~= rest@.take(j as int).push(rest@[j as int]));
                            j += 1;
                        }
                        assert(rest@.take(rest@.len() as int) =~= rest@);
                        Some(g)
                    },
                    None => None,
                }
            } else {
                None
            }
        },
        None => None,
    }
}

fn items_exec(s: &[char], a: usize, b: usize, v4ok: bool) -> (r: Option<Vec<u16>>)
    requires
        a <= b <= s@.len(),
    ensures
        match r {
            Some(g) => items(s@, a as int, b as int, v4ok) == Some(g@),
            None => items(s@, a as int, b as int, v4ok) is None,
        },
{
    if a == b {
        let g: Vec<u16> = Vec::new();
        assert(g@ =~= Seq::<u16>::empty());
        Some(g)
    } else {
        items_nonempty_exec(s, a, b, v4ok)
    }
}

/// Parses the whole of `s` as an IPv6 address.
pub fn parse_ipv6(s: &[char]) -> (r: Option<Vec<u16>>)
    ensures
        match r {
            Some(g) => spec_parse_ipv6(s@) == Some(g@) && g@.len() == 8,
            None => spec_parse_ipv6(s@) is None,
        },
{
    let n = s.len();
    let d = crate::validators::find_str(s, "::", 0);
    proof {
        crate::validators::lemma_first_from_bounds(s@, "::"@, 0);
        reveal_strlit("::");
    }
    match d {
        None => {
            match items_exec(s, 0, n, true) {
                Some(g) => if g.len() == 8 {
                    Some(g)
                } else {
                    None
                },
                None => None,
            }
        },
        Some(d) => {
            let head = items_exec(s, 0, d, false);
            let tail = items_exec(s, d + 2, n, true);
            match (head, tail) {
                (Some(h), Some(t)) => {
                    if h.len() <= 7 && t.len() <= 7 - h.len() {
                        let zeros = 8 - h.len() - t.len();
                        let mut g: Vec<u16> = Vec::new();
                        let mut j: usize = 0;
                        while j < h.len()
                            invariant
                                j <= h@.len(),
                                g@ == h@.take(j as int),
                            decreases h@.len() - j,
                        {
                            g.push(h[j]);
                            assert(h@.take(j + 1) =~= h@.take(j as int).push(h@[j as int]));
                            j += 1;
                        }
                        assert(h@.take(h@.len() as int) =~= h@);
                        let ghost zs = Seq::new(zeros as nat, |_i: int| 0u16);
                        let mut z: usize = 0;
                        while z < zeros
                            invariant
                                z <= zeros,
                                zs == Seq::new(zeros as nat, |_i: int| 0u16),
                                g@ == h@ + zs.take(z as int),
                            decreases zeros - z,
                        {
                            g.push(0);
                            assert(zs.take(z + 1) =~= zs.take(z as int).push(0u16));
                            z += 1;
                        }
                        assert(zs.take(zeros as int) =~= zs);
                        let mut k: usize = 0;
                        while k < t.len()
                            invariant
                                k <= t@.len(),
                                g@ == h@ + zs + t@.take(k as int),
                            decreases t@.len() - k,
                        {
                            g.push(t[k]);
                            assert(t@.take(k + 1) =~= t@.take(k as int).push(t@[k as int]));
                            k += 1;
                        }
                        assert(t@.take(t@.len() as int) =~= t@);
                        assert(g@ =~= h@ + Seq::new((8 - h@.len() - t@.len()) as nat, |_i: int| 0u16) + t@);
                        Some(g)
                    } else {
                        None
                    }
                },
                _ => None,
            }
        },
    }
}

/// Parses `s` as an IP address literal: IPv4 is tried first, then IPv6.
pub fn parse_ip(s: &[char]) -> (r: Option<IpLiteral>)
    ensures
        parses_to(s@, r),
{
    match parse_ipv4(s) {
        Some(o) => {
            let a: [u8; 4] = [o[0], o[1], o[2], o[3]];
            assert(a@ =~= o@);
            Some(IpLiteral::V4(a))
        },
        None => match parse_ipv6(s) {
            Some(g) => {
                let a: [u16; 8] = [g[0], g[1], g[2], g[3], g[4], g[5], g[6], g[7]];
                assert(a@ =~= g@);
                Some(IpLiteral::V6(a))
            },
            None => None,
        },
    }
}

// ---------------------------------------------------------------------------
// Refused ranges
// ---------------------------------------------------------------------------

/// IPv4 addresses that must never be fetched: private (10/8, 172.16/12,
/// 192.168/16), loopback (127/8), link-local (169.254/16, which holds the
/// cloud metadata address), unspecified, broadcast, documentation
/// (192.0.2/24, 198.51.100/24, 203.0.113/24) and 0/8.
pub open spec fn ipv4_blocked(o: Seq<u8>) -> bool {
    let a = o[0];
    let b = o[1];
    let c = o[2];
    let d = o[3];
    ||| a == 10
    ||| (a == 172 && 16 <= b <= 31)
    ||| (a == 192 && b == 168)
    ||| a == 127
    ||| (a == 169 && b == 254)
    ||| (a == 0 && b == 0 && c == 0 && d == 0)
    ||| (a == 255 && b == 255 && c == 255 && d == 255)
    ||| (a == 192 && b == 0 && c == 2)
    ||| (a == 198 && b == 51 && c == 100)
    ||| (a == 203 && b == 0 && c == 113)
    ||| a == 0
}

/// The IPv4 address an IPv4-mapped IPv6 address (`::ffff:a.b.c.d`) carries
/// in its last two groups.
pub open spec fn mapped_v4(g: Seq<u16>) -> Seq<u8> {
    seq![(g[6] / 256) as u8, (g[6] % 256) as u8, (g[7] / 256) as u8, (g[7] % 256) as u8]
}

/// IPv6 addresses that must never be fetched: loopback `::1`, unspecified
/// `::`, unique-local `fc00::/7`, link-local `fe80::/10`, and an IPv4-mapped
/// address (`::ffff:a.b.c.d`) whose IPv4 address is refused.
pub open spec fn ipv6_blocked(g: Seq<u16>) -> bool {
    let all_zero_but_last = g[0] == 0 && g[1] == 0 && g[2] == 0 && g[3] == 0 && g[4] == 0 && g[5]
        == 0 && g[6] == 0;
    ||| (all_zero_but_last && g[7] == 1)
    ||| (all_zero_but_last && g[7] == 0)
    ||| (g[0] & 0xfe00u16) == 0xfc00u16
    ||| (g[0] & 0xffc0u16) == 0xfe80u16
    ||| (is_v4_mapped(g) && ipv4_blocked(mapped_v4(g)))
}

pub open spec fn ip_blocked(ip: IpLiteral) -> bool {
    match ip {
        IpLiteral::V4(o) => ipv4_blocked(o@),
        IpLiteral::V6(g) => ipv6_blocked(g@),
    }
}

/// Whether `ip` is in a private / loopback / link-local / metadata / reserved
/// range that must never be fetched.
pub fn is_blocked_ip(ip: &IpLiteral) -> (b: bool)
    ensures
        b == ip_blocked(*ip),
{
    match ip {
        IpLiteral::V4(o) => is_blocked_ipv4(o),
        IpLiteral::V6(g) => {
            let zero_head = g[0] == 0 && g[1] == 0 && g[2] == 0 && g[3] == 0 && g[4] == 0 && g[5]
                == 0 && g[6] == 0;
            (zero_head && g[7] == 1) || (zero_head && g[7] == 0) || is_unique_local(g[0])
                || is_link_local(g[0]) || is_blocked_mapped(g)
        },
    }
}

/// An IPv4-mapped address whose IPv4 address is refused.
fn is_blocked_mapped(g: &[u16]) -> (b: bool)
    requires
        g@.len() == 8,
    ensures
        b == (is_v4_mapped(g@) && ipv4_blocked(mapped_v4(g@))),
{
    if !(g[0] == 0 && g[1] == 0 && g[2] == 0 && g[3] == 0 && g[4] == 0 && g[5] == 0xffff) {
        return false;
    }
    let mut o: Vec<u8> = Vec::new();
    o.push((g[6] / 256) as u8);
    o.push((g[6] % 256) as u8);
    o.push((g[7] / 256) as u8);
    o.push((g[7] % 256) as u8);
    assert(o@ =~= mapped_v4(g@));
    is_blocked_ipv4(o.as_slice())
}

/// Whether four octets are in a refused IPv4 range.
fn is_blocked_ipv4(o: &[u8]) -> (b: bool)
    requires
        o@.len() == 4,
    ensures
        b == ipv4_blocked(o@),
{
    let a = o[0];
    let b = o[1];
    let c = o[2];
    let d = o[3];
    a == 10 || (a == 172 && 16 <= b && b <= 31) || (a == 192 && b == 168) || a == 127 || (a == 169
        && b == 254) || (a == 0 && b == 0 && c == 0 && d == 0) || (a == 255 && b == 255 && c == 255
        && d == 255) || (a == 192 && b == 0 && c == 2) || (a == 198 && b == 51 && c == 100) || (a
        == 203 && b == 0 && c == 113) || a == 0
}

/// `fc00::/7`, judged on the first group.
fn is_unique_local(first: u16) -> (b: bool)
    ensures
        b == ((first & 0xfe00u16) == 0xfc00u16),
{
    (first & 0xfe00) == 0xfc00
}

/// `fe80::/10`, judged on the first group.
fn is_link_local(first: u16) -> (b: bool)
    ensures
        b == ((first & 0xffc0u16) == 0xfe80u16),
{
    (first & 0xffc0) == 0xfe80
}

// ---------------------------------------------------------------------------
// Canonical text
// ---------------------------------------------------------------------------

/// `a.b.c.d` in decimal.
pub open spec fn ipv4_text(o: Seq<u8>) -> Seq<char> {
    decimal(o[0] as nat) + "."@ + decimal(o[1] as nat) + "."@ + decimal(o[2] as nat) + "."@
        + decimal(o[3] as nat)
}

/// Groups in lower-case hex without leading zeros, joined by `:`.
pub open spec fn hex_join(g: Seq<u16>) -> Seq<char>
    decreases g.len(),
{
    if g.len() == 0 {
        Seq::empty()
    } else if g.len() == 1 {
        hex(g[0] as nat)
    } else {
        hex_join(g.drop_last()) + ":"@ + hex(g.last() as nat)
    }
}

/// The number of consecutive zero groups starting at `i`.
pub open spec fn zero_run(g: Seq<u16>, i: int) -> nat
    decreases g.len() - i,
    when 0 <= i
{
    if i < g.len() && g[i] == 0 {
        1 + zero_run(g, i + 1)
    } else {
        0
    }
}

/// The leftmost longest run of zero groups at or after `i`: its start and
/// length (length 0 when there is none).
pub open spec fn longest_zero_run(g: Seq<u16>, i: int) -> (int, nat)
    decreases g.len() - i,
    when 0 <= i
{
    if i >= g.len() {
        (g.len() as int, 0)
    } else {
        let (bs, bl) = longest_zero_run(g, i + 1);
        if zero_run(g, i) >= bl {
            (i, zero_run(g, i))
        } else {
            (bs, bl)
        }
    }
}

/// An IPv4-mapped IPv6 address `::ffff:a.b.c.d`.
pub open spec fn is_v4_mapped(g: Seq<u16>) -> bool {
    g[0] == 0 && g[1] == 0 && g[2] == 0 && g[3] == 0 && g[4] == 0 && g[5] == 0xffff
}

/// The canonical IPv6 text: an IPv4-mapped address as `::ffff:a.b.c.d`,
/// otherwise the groups in hex with the leftmost longest run of two or more
/// zero groups written `::`.
pub open spec fn ipv6_text(g: Seq<u16>) -> Seq<char> {
    if is_v4_mapped(g) {
        "::ffff:"@ + ipv4_text(mapped_v4(g))
    } else {
        let (st, ln) = longest_zero_run(g, 0);
        if ln > 1 {
            hex_join(g.take(st)) + "::"@ + hex_join(g.skip(st + ln))
        } else {
            hex_join(g)
        }
    }
}

pub open spec fn ip_text(ip: IpLiteral) -> Seq<char> {
    match ip {
        IpLiteral::V4(o) => ipv4_text(o@),
        IpLiteral::V6(g) => ipv6_text(g@),
    }
}

fn push_ipv4_text(out: &mut String, o: &[u8])
    requires
        o@.len() == 4,
    ensures
        final(out)@ == old(out)@ + ipv4_text(o@),
{
    push_decimal(out, o[0] as u64);
    push_char(out, '.');
    push_decimal(out, o[1] as u64);
    push_char(out, '.');
    push_decimal(out, o[2] as u64);
    push_char(out, '.');
    push_decimal(out, o[3] as u64);
    proof {
        reveal_strlit(".");
        assert(final(out)@ =~= old(out)@ + ipv4_text(o@));
    }
}

/// Appends `g[lo..hi]` in hex joined by `:`.
fn push_hex_join(out: &mut String, g: &[u16], lo: usize, hi: usize)
    requires
        lo <= hi <= g@.len(),
    ensures
        final(out)@ == old(out)@ + hex_join(g@.subrange(lo as int, hi as int)),
{
    let ghost start = out@;
    let mut i = lo;
    while i < hi
        invariant
            lo <= i <= hi <= g@.len(),
            out@ == start + hex_join(g@.subrange(lo as int, i as int)),
        decreases hi - i,
    {
        if i > lo {
            push_char(out, ':');
        }
        push_hex(out, g[i] as u32);
        proof {
            reveal_strlit(":");
            let sub = g@.subrange(lo as int, i + 1);
            assert(sub.drop_last() =~= g@.subrange(lo as int, i as int));
            if i == lo {
                assert(g@.subrange(lo as int, i as int) =~= Seq::<u16>::empty());
            }
            assert(out@ =~= start + hex_join(sub));
        }
        i += 1;
    }
}

fn zero_run_exec(g: &[u16], i: usize) -> (r: usize)
    requires
        i <= g@.len(),
    ensures
        r == zero_run(g@, i as int),
        i + r <= g@.len(),
{
    let n = g.len();
    let mut j = i;
    while j < n && g[j] == 0
        invariant
            n == g@.len(),
            i <= j <= n,
            zero_run(g@, i as int) == (j - i) + zero_run(g@, j as int),
        decreases n - j,
    {
        j += 1;
    }
    j - i
}

fn longest_zero_run_exec(g: &[u16]) -> (r: (usize, usize))
    ensures
        (r.0 as int, r.1 as nat) == longest_zero_run(g@, 0),
        r.0 + r.1 <= g@.len(),
{
    let n = g.len();
    let mut best_start: usize = n;
    let mut best_len: usize = 0;
    let mut i: usize = n;
    while i > 0
        invariant
            i <= n == g@.len(),
            (best_start as int, best_len as nat) == longest_zero_run(g@, i as int),
            best_start + best_len <= n,
        decreases i,
    {
        i -= 1;
        let z = zero_run_exec(g, i);
        if z >= best_len {
            best_start = i;
            best_len = z;
        }
    }
    (best_start, best_len)
}

fn push_ipv6_text(out: &mut String, g: &[u16])
    requires
        g@.len() == 8,
    ensures
        final(out)@ == old(out)@ + ipv6_text(g@),
{
    if g[0] == 0 && g[1] == 0 && g[2] == 0 && g[3] == 0 && g[4] == 0 && g[5] == 0xffff {
        push_str(out, "::ffff:");
        let mut o: Vec<u8> = Vec::new();
        o.push((g[6] / 256) as u8);
        o.push((g[6] % 256) as u8);
        o.push((g[7] / 256) as u8);
        o.push((g[7] % 256) as u8);
        assert(o@ =~= seq![(g@[6] / 256) as u8, (g@[6] % 256) as u8, (g@[7] / 256) as u8, (g@[7] % 256) as u8]);
        push_ipv4_text(out, o.as_slice());
    } else {
        let (st, ln) = longest_zero_run_exec(g);
        if ln > 1 {
            push_hex_join(out, g, 0, st);
            push_str(out, "::");
            push_hex_join(out, g, st + ln, 8);
            assert(g@.subrange(0, st as int) =~= g@.take(st as int));
            assert(g@.subrange(st + ln, 8) =~= g@.skip(st + ln));
        } else {
            push_hex_join(out, g, 0, 8);
            assert(g@.subrange(0, 8) =~= g@);
        }
    }
}

/// The canonical text of an IP literal.
pub fn ip_to_text(ip: &IpLiteral) -> (r: String)
    ensures
        r@ == ip_text(*ip),
{
    let mut r = String::new();
    match ip {
        IpLiteral::V4(o) => push_ipv4_text(&mut r, o),
        IpLiteral::V6(g) => push_ipv6_text(&mut r, g),
    }
    assert(r@ =~= ip_text(*ip));
    r
}

} // verus!
