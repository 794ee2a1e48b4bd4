use adaptive_fetch::ipaddr::{ip_to_text, parse_ip, parse_ipv4, parse_ipv6, IpLiteral};

fn chars(s: &str) -> Vec<char> {
    s.chars().collect()
}

#[test]
fn ipv4_literals() {
    assert_eq!(parse_ipv4(&chars("1.2.3.4")), Some(vec![1, 2, 3, 4]));
    assert_eq!(parse_ipv4(&chars("255.0.10.200")), Some(vec![255, 0, 10, 200]));
    assert_eq!(parse_ipv4(&chars("256.0.0.1")), None);
    assert_eq!(parse_ipv4(&chars("01.0.0.1")), None);
    assert_eq!(parse_ipv4(&chars("1.2.3")), None);
    assert_eq!(parse_ipv4(&chars("1.2.3.4 ")), None);
    assert_eq!(parse_ipv4(&chars("")), None);
}

#[test]
fn ipv6_literals() {
    assert_eq!(parse_ipv6(&chars("::")), Some(vec![0; 8]));
    assert_eq!(parse_ipv6(&chars("::1")), Some(vec![0, 0, 0, 0, 0, 0, 0, 1]));
    assert_eq!(parse_ipv6(&chars("1::")), Some(vec![1, 0, 0, 0, 0, 0, 0, 0]));
    assert_eq!(
        parse_ipv6(&chars("1:2:3:4:5:6:7:8")),
        Some(vec![1, 2, 3, 4, 5, 6, 7, 8])
    );
    assert_eq!(
        parse_ipv6(&chars("::ffff:1.2.3.4")),
        Some(vec![0, 0, 0, 0, 0, 0xffff, 0x0102, 0x0304])
    );
    assert_eq!(
        parse_ipv6(&chars("1:2:3:4:5:6:7.8.9.10")),
        Some(vec![1, 2, 3, 4, 5, 6, 0x0708, 0x090a])
    );
    assert_eq!(parse_ipv6(&chars("FE80::aB")), Some(vec![0xfe80, 0, 0, 0, 0, 0, 0, 0xab]));
    assert_eq!(parse_ipv6(&chars("1:2:3:4:5:6:7")), None);
    assert_eq!(parse_ipv6(&chars("1:2:3:4:5:6:7:8:9")), None);
    assert_eq!(parse_ipv6(&chars("1::2::3")), None);
    assert_eq!(parse_ipv6(&chars("12345::")), None);
    assert_eq!(parse_ipv6(&chars("1:2:3:4:5:6:7::")), Some(vec![1, 2, 3, 4, 5, 6, 7, 0]));
    assert_eq!(parse_ipv6(&chars("1:2:3:4:5:6:7:8::")), None);
    assert_eq!(parse_ipv6(&chars("1:2:3:4:5:6::1.2.3.4")), None);
    assert_eq!(parse_ipv6(&chars("1.2.3.4::")), None);
    assert_eq!(parse_ipv6(&chars(":::1")), None);
    assert_eq!(parse_ipv6(&chars("1:")), None);
}

#[test]
fn ip_literals_prefer_ipv4() {
    assert!(matches!(parse_ip(&chars("1.2.3.4")), Some(IpLiteral::V4(_))));
    assert!(matches!(parse_ip(&chars("::1")), Some(IpLiteral::V6(_))));
    assert!(parse_ip(&chars("example.com")).is_none());
}

#[test]
fn canonical_text() {
    assert_eq!(ip_to_text(&IpLiteral::V4([10, 0, 0, 255])), "10.0.0.255");
    assert_eq!(ip_to_text(&IpLiteral::V6([0, 0, 0, 0, 0, 0, 0, 0])), "::");
    assert_eq!(
        ip_to_text(&IpLiteral::V6([0, 0, 0, 0, 0, 0xffff, 0x7f00, 1])),
        "::ffff:127.0.0.1"
    );
    assert_eq!(
        ip_to_text(&IpLiteral::V6([0x2001, 0xdb8, 0, 0, 1, 0, 0, 1])),
        "2001:db8::1:0:0:1"
    );
    assert_eq!(
        ip_to_text(&IpLiteral::V6([1, 0, 2, 3, 4, 5, 6, 7])),
        "1:0:2:3:4:5:6:7"
    );
    assert_eq!(
        ip_to_text(&IpLiteral::V6([1, 2, 3, 4, 5, 6, 0, 0])),
        "1:2:3:4:5:6::"
    );
}

fn same_literal(a: &Option<IpLiteral>, b: &Option<IpLiteral>) -> bool {
    match (a, b) {
        (None, None) => true,
        (Some(IpLiteral::V4(x)), Some(IpLiteral::V4(y))) => x == y,
        (Some(IpLiteral::V6(x)), Some(IpLiteral::V6(y))) => x == y,
        _ => false,
    }
}

/// A small deterministic generator, so that the sweeps below are repeatable.
struct Lcg(u64);

impl Lcg {
    fn next(&mut self) -> u64 {
        self.0 = self.0.wrapping_mul(6364136223846793005).wrapping_add(1442695040888963407);
        self.0 >> 33
    }
}

/// RFC 5952 text of eight groups, written independently of the library: an
/// IPv4-mapped address in dotted form, otherwise lower-case hex groups with
/// the leftmost longest run of two or more zero groups as `::`.
fn rfc5952(g: &[u16; 8]) -> String {
    if g[..5].iter().all(|&x| x == 0) && g[5] == 0xffff {
        return format!(
            "::ffff:{}.{}.{}.{}",
            g[6] >> 8,
            g[6] & 0xff,
            g[7] >> 8,
            g[7] & 0xff
        );
    }
    let (mut best_start, mut best_len) = (0usize, 0usize);
    let mut i = 0;
    while i < 8 {
        if g[i] == 0 {
            let start = i;
            while i < 8 && g[i] == 0 {
                i += 1;
            }
            if i - start > best_len {
                best_start = start;
                best_len = i - start;
            }
        } else {
            i += 1;
        }
    }
    let hex = |part: &[u16]| part.iter().map(|x| format!("{x:x}")).collect::<Vec<_>>().join(":");
    if best_len >= 2 {
        format!("{}::{}", hex(&g[..best_start]), hex(&g[best_start + best_len..]))
    } else {
        hex(&g[..])
    }
}

#[test]
fn rendering_and_parsing_agree_on_generated_addresses() {
    let mut rng = Lcg(7);
    for _ in 0..2000 {
        let o = [rng.next() as u8, rng.next() as u8, rng.next() as u8, rng.next() as u8];
        let text = ip_to_text(&IpLiteral::V4(o));
        assert_eq!(text, format!("{}.{}.{}.{}", o[0], o[1], o[2], o[3]));
        assert!(same_literal(&parse_ip(&chars(&text)), &Some(IpLiteral::V4(o))));

        // many zero groups, so that every compression case occurs
        let mut g = [0u16; 8];
        for group in g.iter_mut() {
            *group = match rng.next() % 4 {
                0 | 1 => 0,
                2 => (rng.next() % 16) as u16,
                _ => rng.next() as u16,
            };
        }
        if rng.next() % 8 == 0 {
            g[..5].fill(0);
            g[5] = 0xffff;
        }
        let text = ip_to_text(&IpLiteral::V6(g));
        assert_eq!(text, rfc5952(&g), "{g:x?}");
        assert!(same_literal(&parse_ip(&chars(&text)), &Some(IpLiteral::V6(g))), "{text}");
        let upper = text.to_uppercase();
        assert!(same_literal(&parse_ip(&chars(&upper)), &Some(IpLiteral::V6(g))), "{upper}");
        let full = g.iter().map(|x| format!("{x:04x}")).collect::<Vec<_>>().join(":");
        assert!(same_literal(&parse_ip(&chars(&full)), &Some(IpLiteral::V6(g))), "{full}");
    }
}
