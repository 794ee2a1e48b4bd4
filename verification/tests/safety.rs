use adaptive_fetch::ipaddr::IpLiteral;
use adaptive_fetch::safety::classify_resolved;
use adaptive_fetch::safety::classify_parsed;
use adaptive_fetch::weburl::UrlParts;
use adaptive_fetch::safety::{classify_host, classify_url};

#[test]
fn allows_public_hosts() {
    assert!(classify_url("https://www.example.org/feed.rss").is_ok());
    assert!(classify_url("https://93.184.216.34/").is_ok());
}

#[test]
fn blocks_loopback_and_private_and_metadata() {
    assert!(classify_url("http://127.0.0.1/").is_err());
    assert!(classify_url("http://localhost/").is_err());
    assert!(classify_url("http://10.0.0.5/").is_err());
    assert!(classify_url("http://192.168.1.1/").is_err());
    assert!(classify_url("http://169.254.169.254/latest/meta-data/").is_err());
    assert!(classify_url("http://[::1]/").is_err());
    assert!(classify_url("http://[fe80::1]/").is_err());
    assert!(classify_url("http://[fc00::1]/").is_err());
}

#[test]
fn rejects_non_http_schemes() {
    assert!(classify_url("file:///etc/passwd").is_err());
    assert!(classify_url("gopher://x/").is_err());
}

#[test]
fn trailing_dot_host_is_still_classified() {
    assert!(classify_url("http://127.0.0.1./").is_err());
}

#[test]
fn reasons_name_what_was_refused() {
    assert_eq!(
        classify_url("http://127.0.0.1/"),
        Err("blocked address: 127.0.0.1".to_string())
    );
    assert_eq!(
        classify_url("http://[fe80::1]/"),
        Err("blocked address: fe80::1".to_string())
    );
    assert_eq!(
        classify_url("http://sub.LocalHost/"),
        Err("blocked host name: sub.localhost".to_string())
    );
    assert_eq!(
        classify_url("ftp://example.com/"),
        Err("unsupported scheme: ftp".to_string())
    );
    assert!(classify_url("no scheme here")
        .unwrap_err()
        .starts_with("invalid url: "));
}

#[test]
fn host_rules_on_plain_hosts() {
    assert!(classify_host("example.com").is_ok());
    assert!(classify_host("example.com.").is_ok());
    assert_eq!(
        classify_host("Metadata."),
        Err("blocked host name: Metadata".to_string())
    );
    assert!(classify_host("metadata.google.internal").is_err());
    assert!(classify_host("notlocalhost").is_ok());
    assert!(classify_host("a.localhost").is_err());
    // ranges
    for blocked in [
        "10.1.2.3",
        "172.16.0.1",
        "172.31.255.255",
        "192.168.0.1",
        "127.5.5.5",
        "169.254.1.1",
        "0.0.0.0",
        "0.1.2.3",
        "255.255.255.255",
        "192.0.2.7",
        "198.51.100.7",
        "203.0.113.7",
        "[::]",
        "[::1]",
        "[fd12::1]",
        "[febf:ffff::]",
        "[::ffff:127.0.0.1]",
        "[::ffff:a00:1]",
    ] {
        assert!(classify_host(blocked).is_err(), "{blocked} should be refused");
    }
    for allowed in [
        "172.32.0.1",
        "172.15.0.1",
        "8.8.8.8",
        "[2001:db8::1]",
        "[fec0::1]",
        "[::ffff:8.8.8.8]",
        "[::2]",
    ] {
        assert!(classify_host(allowed).is_ok(), "{allowed} should be allowed");
    }
}

#[test]
fn ipv6_reasons_use_the_canonical_text() {
    assert_eq!(
        classify_host("[FC00:0:0:0:0:0:0:1]"),
        Err("blocked address: fc00::1".to_string())
    );
    assert_eq!(
        classify_host("[fe80:0:0:1:0:0:0:1]"),
        Err("blocked address: fe80:0:0:1::1".to_string())
    );
    assert_eq!(
        classify_host("[fe80:0:1:0:0:1:0:0]"),
        Err("blocked address: fe80:0:1::1:0:0".to_string())
    );
    assert_eq!(
        classify_host("[fd00:1:2:3:4:5:6:7]"),
        Err("blocked address: fd00:1:2:3:4:5:6:7".to_string())
    );
    assert_eq!(classify_host("[::]"), Err("blocked address: ::".to_string()));
    assert_eq!(
        classify_host("[0:0:0:0:0:0:0:1]"),
        Err("blocked address: ::1".to_string())
    );
}

#[test]
fn malformed_literals_are_host_names() {
    // not IP literals, so judged as names (and allowed)
    for host in ["256.1.1.1", "01.2.3.4", "1.2.3", "1.2.3.4.5", "[1::2::3]", "[12345::1]", "[:1]"] {
        assert!(classify_host(host).is_ok(), "{host} should be allowed as a name");
    }
}

#[test]
fn parsed_url_rules() {
    let parts = |scheme: &str, host: Option<&str>| UrlParts {
        scheme: scheme.to_string(),
        host: host.map(|h| h.to_string()),
        path: "/".to_string(),
        serialization: String::new(),
    };
    assert!(classify_parsed(&parts("https", Some("example.com"))).is_ok());
    assert_eq!(
        classify_parsed(&parts("http", None)),
        Err("url has no host".to_string())
    );
    assert_eq!(
        classify_parsed(&parts("ws", Some("example.com"))),
        Err("unsupported scheme: ws".to_string())
    );
    assert!(classify_parsed(&parts("http", Some("[::1]"))).is_err());
}

#[test]
fn ipv4_mapped_addresses_are_judged_by_their_ipv4_address() {
    assert!(classify_url("http://[::ffff:127.0.0.1]/").is_err());
    assert_eq!(
        classify_host("[::ffff:7f00:1]"),
        Err("blocked address: ::ffff:127.0.0.1".to_string())
    );
    assert!(classify_url("http://[::ffff:169.254.169.254]/").is_err());
    assert!(classify_url("http://[::ffff:93.184.216.34]/").is_ok());
}

#[test]
fn resolved_public_addresses_pass() {
    let addrs = vec![
        IpLiteral::V4([93, 184, 216, 34]),
        IpLiteral::V6([0x2606, 0x2800, 0x220, 0x1, 0x248, 0x1893, 0x25c8, 0x1946]),
    ];
    assert!(classify_resolved(&addrs).is_ok());
    assert!(classify_resolved(&[]).is_ok());
}

#[test]
fn a_name_resolving_to_a_private_address_is_refused() {
    let addrs = vec![
        IpLiteral::V4([93, 184, 216, 34]),
        IpLiteral::V4([169, 254, 169, 254]),
        IpLiteral::V4([10, 0, 0, 1]),
    ];
    assert_eq!(
        classify_resolved(&addrs),
        Err("blocked address: 169.254.169.254".to_string())
    );
    let v6 = vec![IpLiteral::V6([0, 0, 0, 0, 0, 0, 0, 1])];
    assert_eq!(classify_resolved(&v6), Err("blocked address: ::1".to_string()));
    let mapped = vec![IpLiteral::V6([0, 0, 0, 0, 0, 0xffff, 0x7f00, 0x1])];
    assert_eq!(
        classify_resolved(&mapped),
        Err("blocked address: ::ffff:127.0.0.1".to_string())
    );
}
