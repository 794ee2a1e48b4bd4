//! The transport's decisions for a plain feed / API GET.
//!
//! Redirects are followed by hand so that every hop is checked by the SSRF
//! guard before it is requested, with a cap on the number of hops, and a
//! response body is buffered only up to a hard cap. Sending the requests and
//! reading the body is the application's part; this module decides what to
//! request next and how much of a chunk to keep.

use vstd::prelude::*;
use crate::safety::{classify_url, spec_classify_url};
use crate::text::{owned, push_decimal, push_str};
use crate::weburl::{join_url, url_join};

verus! {

broadcast use vstd::string::group_string_axioms;

/// Trace label for the plain client (recorded as `profile_used`).
pub const PROFILE: &'static str = "plain";

/// A mainstream browser User-Agent: official endpoints gate on an empty or
/// unknown UA; only the TLS / HTTP2 fingerprint stays plain.
pub const FEED_UA: &'static str = "Mozilla/5.0 (Macintosh; Intel Mac OS X 10_15_7) AppleWebKit/537.36 (KHTML, like Gecko) Chrome/137.0.0.0 Safari/537.36";

/// Feed / API-first Accept header.
pub const FEED_ACCEPT: &'static str = "application/atom+xml, application/rss+xml, application/xml;q=0.9, text/html;q=0.8, */*;q=0.7";

/// Redirect hop cap. Each hop is SSRF-checked before it is followed.
pub const MAX_REDIRECTS: usize = 10;

/// Body read cap: validation inspects only a small prefix.
pub const MAX_BODY_BYTES: usize = 10485760;

/// Outcome of one GET, after redirect resolution.
#[derive(Debug, Clone)]
pub struct Fetched {
    pub status: u16,
    pub final_url: String,
    pub body: String,
    pub elapsed_ms: u64,
    /// Client profile used (recorded in the trace).
    pub impersonate: String,
}

/// What to do with a response.
#[derive(Debug, Clone, PartialEq, Eq)]
pub enum ResponseStep {
    /// Not a redirect: read its body and deliver it.
    Deliver,
    /// A redirect whose target is now the URL to request next.
    Follow,
    /// A redirect without a `Location` header.
    MissingLocation,
    /// The URL being walked does not parse (the parse error's text).
    InvalidCurrent(String),
    /// The redirect target cannot be joined to the current URL (the error's text).
    InvalidTarget(String),
}

/// The state of a redirect walk: the URL to request and how many redirects
/// were followed to reach it.
#[derive(Debug, Clone)]
pub struct RedirectWalk {
    pub current: String,
    pub hops: usize,
}

/// The redirect statuses (3xx).
pub open spec fn is_redirection(status: u16) -> bool {
    300 <= status <= 399
}

/// The reason a walk gives up after too many redirects.
pub open spec fn too_many_redirects() -> Seq<char> {
    "too many redirects (> "@ + crate::text::decimal(MAX_REDIRECTS as nat) + ")"@
}

/// How a redirect with a location moves the walk, given what joining the
/// location to the current URL gives.
pub open spec fn follow_outcome(
    joined: Result<Result<Seq<char>, Seq<char>>, Seq<char>>,
    step: ResponseStep,
    before: RedirectWalk,
    after: RedirectWalk,
) -> bool {
    match joined {
        Ok(Ok(next)) => step == ResponseStep::Follow && after.current@ == next && after.hops
            == before.hops + 1,
        Ok(Err(e)) => (step matches ResponseStep::InvalidTarget(m) && m@ == e) && after == before,
        Err(e) => (step matches ResponseStep::InvalidCurrent(m) && m@ == e) && after == before,
    }
}

impl RedirectWalk {
    /// A walk that starts at `url`.
    pub fn new(url: &str) -> (w: RedirectWalk)
        ensures
            w.current@ == url@,
            w.hops == 0,
    {
        RedirectWalk { current: owned(url), hops: 0 }
    }

    /// The URL to request now. It is handed out only once it has passed the
    /// SSRF guard, and only while at most [`MAX_REDIRECTS`] redirects have
    /// been followed; otherwise the reason to give up.
    pub fn next_request(&self) -> (r: Result<String, String>)
        ensures
            self.hops > MAX_REDIRECTS ==> (r matches Err(e) && e@ == too_many_redirects()),
            self.hops <= MAX_REDIRECTS ==> match r {
                Ok(u) => u@ == self.current@ && spec_classify_url(u@) is Ok,
                Err(e) => spec_classify_url(self.current@) == Err::<(), Seq<char>>(e@),
            },
    {
        if self.hops > MAX_REDIRECTS {
            let mut msg = owned("too many redirects (> ");
            push_decimal(&mut msg, MAX_REDIRECTS as u64);
            push_str(&mut msg, ")");
            return Err(msg);
        }
        match classify_url(self.current.as_str()) {
            Ok(()) => Ok(owned(self.current.as_str())),
            Err(e) => Err(e),
        }
    }

    /// Takes in a response's status and `Location` header: a 3xx response
    /// with a location moves the walk to the target, joined to the current
    /// URL; any other response is delivered.
    pub fn on_response(&mut self, status: u16, location: Option<&str>) -> (step: ResponseStep)
        requires
            old(self).hops < usize::MAX,
        ensures
            !is_redirection(status) ==> step == ResponseStep::Deliver && *final(self) == *old(self),
            is_redirection(status) && location is None ==> step == ResponseStep::MissingLocation
                && *final(self) == *old(self),
            status / 100 == 3 && location is Some ==> step != ResponseStep::Deliver,
            status / 100 != 3 ==> step == ResponseStep::Deliver,
            is_redirection(status) && location is Some ==> follow_outcome(
                url_join(old(self).current@, location->Some_0@),
                step,
                *old(self),
                *final(self),
            ),
    {
        if !(300 <= status && status <= 399) {
            return ResponseStep::Deliver;
        }
        let loc = match location {
            Some(l) => l,
            None => {
                return ResponseStep::MissingLocation;
            },
        };
        match join_url(self.current.as_str(), loc) {
            Ok(Ok(next)) => {
                self.current = next;
                self.hops = self.hops + 1;
                ResponseStep::Follow
            },
            Ok(Err(e)) => ResponseStep::InvalidTarget(e),
            Err(e) => ResponseStep::InvalidCurrent(e),
        }
    }
}

/// The redirections are exactly the 3xx class of HTTP statuses: a status is
/// a redirection when its hundreds digit is 3, whatever the rest.
pub proof fn lemma_redirections_are_the_3xx_class(status: u16)
    ensures
        is_redirection(status) <==> status / 100 == 3,
{
}

/// How many bytes of a `chunk`-byte chunk to keep when `buffered` bytes are
/// already held: as many as fit under [`MAX_BODY_BYTES`].
pub fn body_take(buffered: usize, chunk: usize) -> (take: usize)
    requires
        buffered <= MAX_BODY_BYTES,
    ensures
        take <= chunk,
        buffered + take <= MAX_BODY_BYTES,
        take == chunk || buffered + take == MAX_BODY_BYTES,
{
    let room = MAX_BODY_BYTES - buffered;
    if chunk < room {
        chunk
    } else {
        room
    }
}

} // verus!
