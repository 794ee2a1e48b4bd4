//! Official public-API router.
//!
//! The one module allowed to name platform hosts: for a recognized platform
//! it rewrites the URL to the platform's official no-auth endpoint, tried
//! before the generic grid. Route selection is deterministic; the fetch of the
//! endpoint is still validated.
//!
//! Landed route: Reddit to its `.rss` feed (the unauthenticated JSON API is
//! WAF-gated; the feed survives).

use vstd::prelude::*;
use crate::safety::strip_root_dot;
use crate::text::{ascii_lower, chars_eq, chars_of, ends_with, has_suffix, lower_ascii, owned, push_str, slice_chars, string_from_chars};
use crate::weburl::{clear_url_fragment, parse_url, set_url_host, set_url_path, url_parse, url_with_host, url_with_path, url_without_fragment};

verus! {

broadcast use vstd::string::group_string_axioms;

/// A recognized platform with an official no-auth endpoint.
#[derive(Debug, Clone, Copy, PartialEq, Eq, Structural)]
pub enum Platform {
    Reddit,
}

/// A deterministic route: the rewritten official endpoint plus a trace label.
#[derive(Debug, Clone, PartialEq, Eq)]
pub struct Route {
    pub platform: Platform,
    /// Trace label, e.g. `reddit:rss`.
    pub name: String,
    /// The official-endpoint URL to fetch.
    pub url: String,
}

/// Reddit's hosts: the apex and every subdomain (not look-alikes).
pub open spec fn is_reddit_host(host: Seq<char>) -> bool {
    host == "reddit.com"@ || ends_with(host, ".reddit.com"@)
}

/// The platform a host (as the URL parser gives it) belongs to; the host is
/// lower-cased and one trailing root dot ignored.
pub open spec fn spec_platform_of_host(host: Seq<char>) -> Option<Platform> {
    if is_reddit_host(strip_root_dot(ascii_lower(host))) {
        Some(Platform::Reddit)
    } else {
        None
    }
}

/// The platform of a URL, judged by its host alone.
pub open spec fn spec_detect(url: Seq<char>) -> Option<Platform> {
    match url_parse(url) {
        Ok((_scheme, Some(h), _path, _ser)) => spec_platform_of_host(h),
        _ => None,
    }
}

/// `path` without its trailing slashes.
pub open spec fn trim_slashes(path: Seq<char>) -> Seq<char>
    decreases path.len(),
{
    if path.len() > 0 && path.last() == '/' {
        trim_slashes(path.drop_last())
    } else {
        path
    }
}

/// The feed path for a path whose trailing slashes are already removed.
pub open spec fn feed_path(trimmed: Seq<char>) -> Seq<char> {
    if trimmed.len() == 0 {
        "/.rss"@
    } else {
        trimmed + "/.rss"@
    }
}

/// The URL text and path after normalizing a bare `reddit.com` host to
/// `www.reddit.com`.
pub open spec fn after_apex(url: Seq<char>) -> Option<(Seq<char>, Seq<char>)> {
    match url_parse(url) {
        Err(_) => None,
        Ok((_scheme, host, path, ser)) => {
            let apex = match host {
                Some(h) => ascii_lower(h) == "reddit.com"@,
                None => false,
            };
            if apex {
                match url_with_host(ser, "www.reddit.com"@) {
                    Some((_s2, _h2, path2, ser2)) => Some((ser2, path2)),
                    None => None,
                }
            } else {
                Some((ser, path))
            }
        },
    }
}

/// Reddit's feed endpoint for a URL: the bare apex becomes `www`, `/.rss` is
/// appended to the path (trailing slashes dropped) unless the path already
/// ends in `.rss`, and the fragment is removed.
pub open spec fn reddit_feed_url(url: Seq<char>) -> Option<Seq<char>> {
    match after_apex(url) {
        None => None,
        Some((text, path)) => {
            let trimmed = trim_slashes(path);
            let with_path = if ends_with(trimmed, ".rss"@) {
                Some(text)
            } else {
                url_with_path(text, feed_path(trimmed))
            };
            match with_path {
                Some(t) => url_without_fragment(t),
                None => None,
            }
        },
    }
}

/// The route for a URL, as (platform, label, endpoint).
pub open spec fn spec_route(url: Seq<char>) -> Option<(Platform, Seq<char>, Seq<char>)> {
    match spec_detect(url) {
        Some(Platform::Reddit) => match reddit_feed_url(url) {
            Some(u) => Some((Platform::Reddit, "reddit:rss"@, u)),
            None => None,
        },
        None => None,
    }
}

pub open spec fn route_view(r: Option<Route>) -> Option<(Platform, Seq<char>, Seq<char>)> {
    match r {
        Some(rt) => Some((rt.platform, rt.name@, rt.url@)),
        None => None,
    }
}

/// The platform a host belongs to (what follows the URL parse in
/// [`detect`]): Reddit for `reddit.com` and its subdomains, case-insensitive,
/// one trailing root dot ignored; never a look-alike host.
pub fn platform_of_host(host: &str) -> (r: Option<Platform>)
    ensures
        r == spec_platform_of_host(host@),
{
    let lowered = lower_ascii(chars_of(host).as_slice());
    let n = lowered.len();
    let h = if n > 0 && lowered[n - 1] == '.' {
        slice_chars(lowered.as_slice(), 0, n - 1)
    } else {
        slice_chars(lowered.as_slice(), 0, n)
    };
    assert(h@ == strip_root_dot(ascii_lower(host@))) by {
        assert(lowered@.subrange(0, lowered@.len() as int) =~= lowered@);
        assert(lowered@.drop_last() =~= lowered@.subrange(0, lowered@.len() - 1));
    }
    if chars_eq(h.as_slice(), chars_of("reddit.com").as_slice()) || has_suffix(
        h.as_slice(),
        chars_of(".reddit.com").as_slice(),
    ) {
        Some(Platform::Reddit)
    } else {
        None
    }
}

/// Recognize the platform of `url`, if a route knows it: Reddit for
/// `reddit.com` and its subdomains (case-insensitive, trailing root dot
/// ignored), never for look-alike hosts or paths that merely mention it.
pub fn detect(url: &str) -> (r: Option<Platform>)
    ensures
        r == spec_detect(url@),
{
    match parse_url(url) {
        Ok(parsed) => match &parsed.host {
            Some(host) => platform_of_host(host.as_str()),
            None => None,
        },
        Err(_) => None,
    }
}

/// `path` without its trailing slashes.
fn trim_trailing_slashes(path: &[char]) -> (r: Vec<char>)
    ensures
        r@ == trim_slashes(path@),
{
    let mut end = path.len();
    assert(path@.take(path@.len() as int) =~= path@);
    while end > 0 && path[end - 1] == '/'
        invariant
            end <= path@.len(),
            trim_slashes(path@) == trim_slashes(path@.take(end as int)),
        decreases end,
    {
        assert(path@.take(end as int).drop_last() =~= path@.take(end - 1));
        end -= 1;
    }
    assert(path@.subrange(0, end as int) =~= path@.take(end as int));
    slice_chars(path, 0, end)
}

/// The path to give a Reddit URL for its feed (what follows the URL parse in
/// [`route`]): trailing slashes dropped and `/.rss` appended, or `None` when
/// the path already ends in `.rss` and stays as it is.
pub fn feed_path_for(path: &str) -> (r: Option<String>)
    ensures
        match r {
            Some(p) => !ends_with(trim_slashes(path@), ".rss"@) && p@ == feed_path(trim_slashes(path@)),
            None => ends_with(trim_slashes(path@), ".rss"@),
        },
{
    let trimmed = trim_trailing_slashes(chars_of(path).as_slice());
    if has_suffix(trimmed.as_slice(), chars_of(".rss").as_slice()) {
        None
    } else if trimmed.len() == 0 {
        Some(owned("/.rss"))
    } else {
        let mut p = string_from_chars(trimmed.as_slice());
        push_str(&mut p, "/.rss");
        Some(p)
    }
}

/// Reddit to its `.rss` feed.
fn reddit_rss(url: &str) -> (r: Option<Route>)
    ensures
        match r {
            Some(rt) => reddit_feed_url(url@) == Some(rt.url@) && rt.platform == Platform::Reddit
                && rt.name@ == "reddit:rss"@,
            None => reddit_feed_url(url@) is None,
        },
{
    let parsed = match parse_url(url) {
        Ok(p) => p,
        Err(_) => {
            return None;
        },
    };
    let apex = match &parsed.host {
        Some(h) => chars_eq(lower_ascii(chars_of(h.as_str()).as_slice()).as_slice(), chars_of("reddit.com").as_slice()),
        None => false,
    };
    let (text, path) = if apex {
        match set_url_host(parsed.serialization.as_str(), "www.reddit.com") {
            Some(p2) => (p2.serialization, p2.path),
            None => {
                return None;
            },
        }
    } else {
        (parsed.serialization, parsed.path)
    };
    assert(after_apex(url@) == Some((text@, path@)));
    let with_path = match feed_path_for(path.as_str()) {
        None => Some(text),
        Some(new_path) => set_url_path(text.as_str(), new_path.as_str()),
    };
    let with_path = match with_path {
        Some(t) => t,
        None => {
            return None;
        },
    };
    match clear_url_fragment(with_path.as_str()) {
        Some(u) => Some(Route { platform: Platform::Reddit, name: owned("reddit:rss"), url: u }),
        None => None,
    }
}

/// The deterministic route for `url`, or `None` if no route recognizes it.
pub fn route(url: &str) -> (r: Option<Route>)
    ensures
        route_view(r) == spec_route(url@),
{
    match detect(url) {
        Some(Platform::Reddit) => reddit_rss(url),
        None => None,
    }
}

/// Whether a route can service `url`: exactly when [`route`] gives one.
pub fn can_route(url: &str) -> (b: bool)
    ensures
        b == (spec_route(url@) is Some),
{
    route(url).is_some()
}

} // verus!
