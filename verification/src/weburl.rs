//! The URL standard's parser and serializer, as the `url` crate implements
//! them, seen through plain values.
//!
//! A `url::Url` is determined by its serialization (the crate keeps the
//! serialization as its state and compares URLs by it), so every operation
//! here takes and gives serialized text, and each result is named as a
//! function of its arguments: the URL standard takes pages to state, and it is
//! the crate's work, not this library's.

use vstd::prelude::*;

verus! {

/// The parts of a parsed URL that the engine reads.
#[derive(Debug, Clone)]
pub struct UrlParts {
    /// The scheme, lower-cased, without the `:`.
    pub scheme: String,
    /// The host as text (IPv6 addresses in brackets), if the URL has one.
    pub host: Option<String>,
    /// The path, starting with `/` for URLs with a host.
    pub path: String,
    /// The whole URL, serialized.
    pub serialization: String,
}

/// The plain-value view of parsed URL parts:
/// (scheme, host, path, serialization).
pub open spec fn parts_view(p: UrlParts) -> (Seq<char>, Option<Seq<char>>, Seq<char>, Seq<char>) {
    (
        p.scheme@,
        match p.host {
            Some(h) => Some(h@),
            None => None,
        },
        p.path@,
        p.serialization@,
    )
}

/// What `url::Url::parse` makes of a text: the parts of the URL, or the text
/// of the parse error.
pub uninterp spec fn url_parse(s: Seq<char>) -> Result<(Seq<char>, Option<Seq<char>>, Seq<char>, Seq<char>), Seq<char>>;

/// `url::Url::parse`, with the parsed URL read into plain parts (its
/// `scheme()`, `host_str()`, `path()` and `as_str()`) and a failure turned
/// into the error's text. The contract only names the result: the parser is
/// the crate's.
#[verifier::external_body]
pub(crate) fn parse_url(s: &str) -> (r: Result<UrlParts, String>)
    ensures
        match r {
            Ok(p) => url_parse(s@) == Ok::<_, Seq<char>>(parts_view(p)),
            Err(e) => url_parse(s@) == Err::<(Seq<char>, Option<Seq<char>>, Seq<char>, Seq<char>), _>(e@),
        },
{
    match url::Url::parse(s) {
        Ok(u) => Ok(UrlParts {
            scheme: u.scheme().to_string(),
            host: u.host_str().map(|h| h.to_string()),
            path: u.path().to_string(),
            serialization: u.as_str().to_string(),
        }),
        Err(error) => Err(error.to_string()),
    }
}

/// The parts of the URL serialized as `url` after
/// `url::Url::set_host(Some(host))`, or `None` when `url` does not parse or
/// the host is refused.
pub uninterp spec fn url_with_host(url: Seq<char>, host: Seq<char>) -> Option<(Seq<char>, Option<Seq<char>>, Seq<char>, Seq<char>)>;

/// `url::Url::set_host` on the URL serialized as `url`, with the changed URL
/// read into plain parts.
#[verifier::external_body]
pub(crate) fn set_url_host(url: &str, host: &str) -> (r: Option<UrlParts>)
    ensures
        match r {
            Some(p) => url_with_host(url@, host@) == Some(parts_view(p)),
            None => url_with_host(url@, host@) is None,
        },
{
    let mut parsed = url::Url::parse(url).ok()?;
    parsed.set_host(Some(host)).ok()?;
    Some(UrlParts {
        scheme: parsed.scheme().to_string(),
        host: parsed.host_str().map(|h| h.to_string()),
        path: parsed.path().to_string(),
        serialization: parsed.as_str().to_string(),
    })
}

/// The serialization of the URL `url` after `url::Url::set_path(path)`, or
/// `None` when `url` does not parse.
pub uninterp spec fn url_with_path(url: Seq<char>, path: Seq<char>) -> Option<Seq<char>>;

/// `url::Url::set_path` on the URL serialized as `url`.
#[verifier::external_body]
pub(crate) fn set_url_path(url: &str, path: &str) -> (r: Option<String>)
    ensures
        match r {
            Some(t) => url_with_path(url@, path@) == Some(t@),
            None => url_with_path(url@, path@) is None,
        },
{
    let mut parsed = url::Url::parse(url).ok()?;
    parsed.set_path(path);
    Some(parsed.as_str().to_string())
}

/// The serialization of the URL `url` after `url::Url::set_fragment(None)`,
/// or `None` when `url` does not parse.
pub uninterp spec fn url_without_fragment(url: Seq<char>) -> Option<Seq<char>>;

/// `url::Url::set_fragment(None)` on the URL serialized as `url`.
#[verifier::external_body]
pub(crate) fn clear_url_fragment(url: &str) -> (r: Option<String>)
    ensures
        match r {
            Some(t) => url_without_fragment(url@) == Some(t@),
            None => url_without_fragment(url@) is None,
        },
{
    let mut parsed = url::Url::parse(url).ok()?;
    parsed.set_fragment(None);
    Some(parsed.as_str().to_string())
}

/// What `url::Url::join(input)` makes of `input` against the base URL
/// serialized as `base`: the joined URL serialized, or the join error's text;
/// the outer error is the text of the error parsing `base` itself.
pub uninterp spec fn url_join(base: Seq<char>, input: Seq<char>) -> Result<Result<Seq<char>, Seq<char>>, Seq<char>>;

/// `url::Url::join` against the URL serialized as `base`.
#[verifier::external_body]
pub(crate) fn join_url(base: &str, input: &str) -> (r: Result<Result<String, String>, String>)
    ensures
        match r {
            Ok(Ok(t)) => url_join(base@, input@) == Ok::<Result<Seq<char>, Seq<char>>, Seq<char>>(Ok(t@)),
            Ok(Err(e)) => url_join(base@, input@) == Ok::<Result<Seq<char>, Seq<char>>, Seq<char>>(Err(e@)),
            Err(e) => url_join(base@, input@) == Err::<Result<Seq<char>, Seq<char>>, Seq<char>>(e@),
        },
{
    let parsed = url::Url::parse(base).map_err(|e| e.to_string())?;
    Ok(parsed.join(input).map(|u| u.as_str().to_string()).map_err(|e| e.to_string()))
}

} // verus!
