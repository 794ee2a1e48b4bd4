//! SSRF guard.
//!
//! Rejects a URL whose scheme is not http(s) or whose host is a private /
//! loopback / link-local / cloud-metadata address literal or a well-known
//! private name, before any request is made. The transport runs it again on
//! every redirect hop.
//!
//! The addresses a host name resolves to are judged by [`classify_resolved`]:
//! the caller resolves the host (I/O) and hands the addresses in before it
//! connects, so that a name that resolves to a refused address is refused
//! too.

use vstd::prelude::*;
use crate::ipaddr::{
    ip_blocked, ip_text, ip_to_text, ipv4_blocked, ipv4_text, ipv6_blocked, ipv6_text, is_blocked_ip,
    parse_ip, spec_parse_ipv4, spec_parse_ipv6, IpLiteral,
};
use crate::text::{ascii_lower, chars_eq, chars_of, ends_with, has_suffix, lower_ascii, owned, push_str, slice_chars, string_from_chars};
use crate::weburl::{parse_url, parts_view, url_parse, UrlParts};

verus! {

broadcast use vstd::string::group_string_axioms;

/// `host` without one trailing DNS root dot.
pub open spec fn strip_root_dot(host: Seq<char>) -> Seq<char> {
    if host.len() > 0 && host.last() == '.' {
        host.drop_last()
    } else {
        host
    }
}

/// The text inside `[...]` when `host` is bracketed, otherwise `host`.
pub open spec fn unbracketed(host: Seq<char>) -> Seq<char> {
    if host.len() >= 2 && host[0] == '[' && host.last() == ']' {
        host.subrange(1, host.len() - 1)
    } else {
        host
    }
}

/// Host names refused without resolving them.
pub open spec fn is_blocked_name(lowered: Seq<char>) -> bool {
    ||| lowered == "localhost"@
    ||| ends_with(lowered, ".localhost"@)
    ||| lowered == "metadata"@
    ||| lowered == "metadata.google.internal"@
}

/// The guard's verdict on a host `h` (root dot already removed): an address
/// literal (IPv4 first, then IPv6, read from inside brackets if any) in a
/// refused range, or a refused name, is rejected with the reason; everything
/// else may be fetched.
pub open spec fn classify_stripped(h: Seq<char>) -> Result<(), Seq<char>> {
    let lit = unbracketed(h);
    match spec_parse_ipv4(lit) {
        Some(o) => if ipv4_blocked(o) {
            Err("blocked address: "@ + ipv4_text(o))
        } else {
            Ok(())
        },
        None => match spec_parse_ipv6(lit) {
            Some(g) => if ipv6_blocked(g) {
                Err("blocked address: "@ + ipv6_text(g))
            } else {
                Ok(())
            },
            None => if is_blocked_name(ascii_lower(h)) {
                Err("blocked host name: "@ + h)
            } else {
                Ok(())
            },
        },
    }
}

/// The guard's verdict on a host as the URL parser gives it: `Ok` when it
/// may be fetched, otherwise the reason. One trailing root dot is ignored.
pub open spec fn spec_classify_host(host: Seq<char>) -> Result<(), Seq<char>> {
    classify_stripped(strip_root_dot(host))
}

/// The guard's verdict on a URL, given what the URL parser makes of it.
pub open spec fn spec_classify_url(url: Seq<char>) -> Result<(), Seq<char>> {
    match url_parse(url) {
        Err(e) => Err("invalid url: "@ + e),
        Ok(parts) => spec_classify_parsed(parts),
    }
}

/// The guard's verdict on a parsed URL (scheme, host, path, serialization).
pub open spec fn spec_classify_parsed(parts: (Seq<char>, Option<Seq<char>>, Seq<char>, Seq<char>)) -> Result<(), Seq<char>> {
    let (scheme, host, _path, _ser) = parts;
    if scheme != "http"@ && scheme != "https"@ {
        Err("unsupported scheme: "@ + scheme)
    } else {
        match host {
            None => Err("url has no host"@),
            Some(h) => spec_classify_host(h),
        }
    }
}

/// The guard's verdict on a host as the URL parser gives it (what follows
/// the URL parse in [`classify_url`]): an address literal in a refused range
/// is `blocked address: <canonical address>`, a well-known private name is
/// `blocked host name: <host>`, and everything else may be fetched.
pub fn classify_host(host: &str) -> (r: Result<(), String>)
    ensures
        match r {
            Ok(()) => spec_classify_host(host@) == Ok::<(), Seq<char>>(()),
            Err(e) => spec_classify_host(host@) == Err::<(), Seq<char>>(e@),
        },
{
    let hv = chars_of(host);
    let n = hv.len();
    let h = if n > 0 && hv[n - 1] == '.' {
        slice_chars(hv.as_slice(), 0, n - 1)
    } else {
        slice_chars(hv.as_slice(), 0, n)
    };
    assert(h@ == strip_root_dot(host@)) by {
        assert(host@.subrange(0, host@.len() as int) =~= host@);
        assert(host@.drop_last() =~= host@.subrange(0, host@.len() - 1));
    }
    let m = h.len();
    let literal = if m >= 2 && h[0] == '[' && h[m - 1] == ']' {
        slice_chars(h.as_slice(), 1, m - 1)
    } else {
        slice_chars(h.as_slice(), 0, m)
    };
    assert(literal@ == unbracketed(h@)) by {
        assert(h@.subrange(0, h@.len() as int) =~= h@);
    }
    let ip = parse_ip(literal.as_slice());
    match ip {
        Some(addr) => {
            if is_blocked_ip(&addr) {
                let mut msg = owned("blocked address: ");
                let text = ip_to_text(&addr);
                push_str(&mut msg, text.as_str());
                Err(msg)
            } else {
                Ok(())
            }
        },
        None => {
            let lowered = lower_ascii(h.as_slice());
            let blocked = chars_eq(lowered.as_slice(), chars_of("localhost").as_slice())
                || has_suffix(lowered.as_slice(), chars_of(".localhost").as_slice())
                || chars_eq(lowered.as_slice(), chars_of("metadata").as_slice())
                || chars_eq(lowered.as_slice(), chars_of("metadata.google.internal").as_slice());
            if blocked {
                let mut msg = owned("blocked host name: ");
                let hs = string_from_chars(h.as_slice());
                push_str(&mut msg, hs.as_str());
                Err(msg)
            } else {
                Ok(())
            }
        },
    }
}

/// Reject `url` if its scheme is not http(s), if it has no host, or if its
/// host is a refused address literal or name. Returns the reason on rejection:
/// `invalid url: <parse error>`, `unsupported scheme: <scheme>`,
/// `url has no host`, or the host's reason (see [`classify_host`]).
pub fn classify_url(url: &str) -> (r: Result<(), String>)
    ensures
        match r {
            Ok(()) => spec_classify_url(url@) == Ok::<(), Seq<char>>(()),
            Err(e) => spec_classify_url(url@) == Err::<(), Seq<char>>(e@),
        },
{
    let parsed = match parse_url(url) {
        Ok(p) => p,
        Err(error) => {
            let mut msg = owned("invalid url: ");
            push_str(&mut msg, error.as_str());
            return Err(msg);
        },
    };
    classify_parsed(&parsed)
}

/// The guard's verdict on a parsed URL (what follows the parse in
/// [`classify_url`]): only `http` and `https` with a host the guard lets
/// through (see [`classify_host`]) may be fetched.
pub fn classify_parsed(parsed: &UrlParts) -> (r: Result<(), String>)
    ensures
        match r {
            Ok(()) => spec_classify_parsed(parts_view(*parsed)) == Ok::<(), Seq<char>>(()),
            Err(e) => spec_classify_parsed(parts_view(*parsed)) == Err::<(), Seq<char>>(e@),
        },
{
    let scheme = chars_of(parsed.scheme.as_str());
    if !chars_eq(scheme.as_slice(), chars_of("http").as_slice()) && !chars_eq(
        scheme.as_slice(),
        chars_of("https").as_slice(),
    ) {
        let mut msg = owned("unsupported scheme: ");
        push_str(&mut msg, parsed.scheme.as_str());
        return Err(msg);
    }
    match &parsed.host {
        None => Err(owned("url has no host")),
        Some(host) => classify_host(host.as_str()),
    }
}

/// The position of the first refused address in `addrs` at or after `i`.
pub open spec fn first_blocked_from(addrs: Seq<IpLiteral>, i: int) -> Option<int>
    decreases addrs.len() - i,
{
    if i < 0 || i >= addrs.len() {
        None
    } else if ip_blocked(addrs[i]) {
        Some(i)
    } else {
        first_blocked_from(addrs, i + 1)
    }
}

/// The guard's verdict on the addresses a host resolves to: the first refused
/// one is reported as `blocked address: <canonical address>`.
pub open spec fn spec_classify_resolved(addrs: Seq<IpLiteral>) -> Result<(), Seq<char>> {
    match first_blocked_from(addrs, 0) {
        Some(k) => Err("blocked address: "@ + ip_text(addrs[k])),
        None => Ok(()),
    }
}

/// Reject a host whose resolved addresses include a private / loopback /
/// link-local / cloud-metadata one (the same ranges as for address
/// literals). Returns `blocked address: <address>` for the first such
/// address.
pub fn classify_resolved(addrs: &[IpLiteral]) -> (r: Result<(), String>)
    ensures
        match r {
            Ok(()) => spec_classify_resolved(addrs@) == Ok::<(), Seq<char>>(()),
            Err(e) => spec_classify_resolved(addrs@) == Err::<(), Seq<char>>(e@),
        },
{
    let mut i: usize = 0;
    while i < addrs.len()
        invariant
            0 <= i <= addrs@.len(),
            first_blocked_from(addrs@, 0) == first_blocked_from(addrs@, i as int),
        decreases addrs@.len() - i,
    {
        let addr = &addrs[i];
        if is_blocked_ip(addr) {
            let mut msg = owned("blocked address: ");
            let text = ip_to_text(addr);
            push_str(&mut msg, text.as_str());
            return Err(msg);
        }
        i = i + 1;
    }
    Ok(())
}

// ---------------------------------------------------------------------------
// Laws
// ---------------------------------------------------------------------------

/// A host with a trailing DNS root dot is judged exactly as the same host
/// without it (one dot is ignored).
pub proof fn lemma_root_dot_ignored(host: Seq<char>)
    requires
        !(host.len() > 0 && host.last() == '.'),
    ensures
        spec_classify_host(host.push('.')) == spec_classify_host(host),
{
    assert(strip_root_dot(host.push('.')) =~= host);
    assert(strip_root_dot(host) == host);
}

/// A host the guard lets through is neither a refused address literal nor a
/// refused name.
pub proof fn lemma_allowed_host_is_safe(host: Seq<char>)
    requires
        spec_classify_host(host) is Ok,
    ensures
        ({
            let lit = unbracketed(strip_root_dot(host));
            &&& spec_parse_ipv4(lit) matches Some(o) ==> !ipv4_blocked(o)
            &&& spec_parse_ipv4(lit) is None ==> (spec_parse_ipv6(lit) matches Some(g) ==> !ipv6_blocked(g))
            &&& spec_parse_ipv4(lit) is None && spec_parse_ipv6(lit) is None ==> !is_blocked_name(
                ascii_lower(strip_root_dot(host)),
            )
        }),
{
}

/// A URL the guard lets through has an http or https scheme and a host that
/// the guard lets through.
pub proof fn lemma_allowed_url_shape(url: Seq<char>)
    requires
        spec_classify_url(url) is Ok,
    ensures
        url_parse(url) is Ok,
        url_parse(url)->Ok_0.0 == "http"@ || url_parse(url)->Ok_0.0 == "https"@,
        url_parse(url)->Ok_0.1 is Some,
        spec_classify_host(url_parse(url)->Ok_0.1->Some_0) is Ok,
{
}

/// What the guard says of resolved addresses: it lets them through exactly
/// when none is refused, and otherwise reports the first refused one.
pub proof fn lemma_resolved_verdict(addrs: Seq<IpLiteral>)
    ensures
        spec_classify_resolved(addrs) is Ok <==> forall|i: int|
            0 <= i < addrs.len() ==> !ip_blocked(#[trigger] addrs[i]),
        first_blocked_from(addrs, 0) matches Some(k) ==> {
            &&& 0 <= k < addrs.len()
            &&& ip_blocked(addrs[k])
            &&& forall|j: int| 0 <= j < k ==> !ip_blocked(#[trigger] addrs[j])
        },
{
    lemma_first_blocked_from(addrs, 0);
}

proof fn lemma_first_blocked_from(addrs: Seq<IpLiteral>, i: int)
    requires
        0 <= i <= addrs.len(),
    ensures
        first_blocked_from(addrs, i) is None <==> forall|j: int|
            i <= j < addrs.len() ==> !ip_blocked(#[trigger] addrs[j]),
        first_blocked_from(addrs, i) matches Some(k) ==> {
            &&& i <= k < addrs.len()
            &&& ip_blocked(addrs[k])
            &&& forall|j: int| i <= j < k ==> !ip_blocked(#[trigger] addrs[j])
        },
    decreases addrs.len() - i,
{
    if i < addrs.len() {
        lemma_first_blocked_from(addrs, i + 1);
    }
}

} // verus!
