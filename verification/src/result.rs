//! Public result and verdict types: the stable engine contract.
//!
//! HTTP 200 is the start of inspection, not success: a response counts as a
//! success only once it clears validation, and the verdict says how it was
//! judged.

use vstd::prelude::*;

verus! {

/// Classification of a fetched response.
#[derive(Debug, Clone, Copy, PartialEq, Eq, Structural)]
pub enum Verdict {
    /// Caller-supplied positive proof matched: terminal success.
    StrongOk,
    /// Clean response, no negative signal: terminal success.
    WeakOk,
    /// Ambiguous: kept as best effort while the search goes on (not terminal).
    SuspectOk,
    /// WAF challenge (negative proof).
    Challenge,
    /// Generic non-2xx block.
    Blocked,
    /// 429: back off, do not hammer. Transient, not a terminal wall.
    RateLimited,
    /// 401/407: terminal; retrying the TLS grid cannot help.
    AuthRequired,
    /// 404/410: terminal.
    NotFound,
    /// Exception, missing dependency, or unscored.
    Unknown,
}

impl Verdict {
    /// Terminal success: `StrongOk` or `WeakOk` (never `SuspectOk`).
    pub open spec fn spec_is_ok(self) -> bool {
        self is StrongOk || self is WeakOk
    }

    /// Truly terminal failure: `AuthRequired` or `NotFound`.
    pub open spec fn spec_is_terminal_nonsuccess(self) -> bool {
        self is AuthRequired || self is NotFound
    }

    /// Stop the current TLS grid: the terminal set plus `RateLimited`.
    pub open spec fn spec_is_grid_stop(self) -> bool {
        self.spec_is_terminal_nonsuccess() || self is RateLimited
    }

    /// Terminal success only. `SuspectOk` is intentionally excluded.
    pub fn is_ok(self) -> (b: bool)
        ensures
            b == self.spec_is_ok(),
    {
        matches!(self, Verdict::StrongOk | Verdict::WeakOk)
    }

    /// Truly terminal: no bypass route can recover this resource. A 429 is
    /// transient and is deliberately excluded.
    pub fn is_terminal_nonsuccess(self) -> (b: bool)
        ensures
            b == self.spec_is_terminal_nonsuccess(),
    {
        matches!(self, Verdict::AuthRequired | Verdict::NotFound)
    }

    /// Stop the current TLS grid: more handshakes will not help right now.
    pub fn is_grid_stop(self) -> (b: bool)
        ensures
            b == self.spec_is_grid_stop(),
    {
        self.is_terminal_nonsuccess() || matches!(self, Verdict::RateLimited)
    }

    /// The verdict's name, as reports print it.
    pub open spec fn spec_name(self) -> Seq<char> {
        match self {
            Verdict::StrongOk => "StrongOk"@,
            Verdict::WeakOk => "WeakOk"@,
            Verdict::SuspectOk => "SuspectOk"@,
            Verdict::Challenge => "Challenge"@,
            Verdict::Blocked => "Blocked"@,
            Verdict::RateLimited => "RateLimited"@,
            Verdict::AuthRequired => "AuthRequired"@,
            Verdict::NotFound => "NotFound"@,
            Verdict::Unknown => "Unknown"@,
        }
    }

    /// The verdict's name, as reports print it.
    pub fn name(self) -> (s: &'static str)
        ensures
            s@ == self.spec_name(),
    {
        match self {
            Verdict::StrongOk => "StrongOk",
            Verdict::WeakOk => "WeakOk",
            Verdict::SuspectOk => "SuspectOk",
            Verdict::Challenge => "Challenge",
            Verdict::Blocked => "Blocked",
            Verdict::RateLimited => "RateLimited",
            Verdict::AuthRequired => "AuthRequired",
            Verdict::NotFound => "NotFound",
            Verdict::Unknown => "Unknown",
        }
    }
}

/// The three verdict predicates partition the verdicts as the engine needs:
/// a terminal success is never a grid stop, every terminal failure stops the
/// grid, and the only grid stop that is not terminal is a 429.
pub proof fn lemma_verdict_classes(v: Verdict)
    ensures
        v.spec_is_ok() ==> !v.spec_is_grid_stop(),
        v.spec_is_terminal_nonsuccess() ==> v.spec_is_grid_stop(),
        v.spec_is_grid_stop() && !v.spec_is_terminal_nonsuccess() <==> v == Verdict::RateLimited,
        v == Verdict::SuspectOk ==> !v.spec_is_ok() && !v.spec_is_grid_stop(),
{
}

/// Each verdict is reported under its own variant name, and no two verdicts
/// share a name, so a report never passes one verdict off as another (a
/// rate limit is never shown as a block).
pub proof fn lemma_verdict_names(v: Verdict, w: Verdict)
    ensures
        v.spec_name() == w.spec_name() ==> v == w,
        Verdict::StrongOk.spec_name() == "StrongOk"@,
        Verdict::WeakOk.spec_name() == "WeakOk"@,
        Verdict::SuspectOk.spec_name() == "SuspectOk"@,
        Verdict::Challenge.spec_name() == "Challenge"@,
        Verdict::Blocked.spec_name() == "Blocked"@,
        Verdict::RateLimited.spec_name() == "RateLimited"@,
        Verdict::AuthRequired.spec_name() == "AuthRequired"@,
        Verdict::NotFound.spec_name() == "NotFound"@,
        Verdict::Unknown.spec_name() == "Unknown"@,
{
    reveal_strlit("StrongOk");
    reveal_strlit("WeakOk");
    reveal_strlit("SuspectOk");
    reveal_strlit("Challenge");
    reveal_strlit("Blocked");
    reveal_strlit("RateLimited");
    reveal_strlit("AuthRequired");
    reveal_strlit("NotFound");
    reveal_strlit("Unknown");
    if v.spec_name() == w.spec_name() && v != w {
        let a = v.spec_name();
        let b = w.spec_name();
        assert(a.len() == b.len());
        assert(a[0] == b[0]);
        assert(a[1] == b[1]);
    }
}

/// One attempt in the trace: a (transform x impersonate x referer x executor)
/// combination and how its response was judged.
#[derive(Debug, Clone)]
pub struct Attempt {
    /// `probe` | `grid` | `fallback` | `phase0`.
    pub phase: String,
    /// `rquest` | `playwright_real_chrome` | `phase0:<route>` | ...
    pub executor: String,
    pub url: String,
    /// `original` | `mobile_subdomain` | `am_prefix` | `drop_www` | `-`.
    pub url_transform: String,
    /// TLS impersonation target (None for executors that do not impersonate).
    pub impersonate: Option<String>,
    pub referer: String,
    pub status: u16,
    pub body_size: usize,
    pub verdict: Verdict,
    pub reasons: Vec<String>,
    pub elapsed_ms: u64,
    pub error: Option<String>,
}

/// The single value [`crate::fetch`] returns.
#[derive(Debug, Clone)]
pub struct FetchResult {
    pub ok: bool,
    /// Fetched body (left out of the JSON report).
    pub content: String,
    pub final_url: String,
    pub verdict: Verdict,
    pub profile_used: Option<String>,
    pub trace: Vec<Attempt>,
    pub summary: String,
    // scheduler diagnostics
    pub planned_attempts: u32,
    pub executed_attempts: u32,
    pub grid_exhausted: bool,
    /// `success` | `exhausted` | `budget` | `<terminal verdict>` | `phase0_failed` |
    /// `error` | `unimplemented`.
    pub stop_reason: String,
    // failure gate
    /// When `ok == false`, the escalation routes the engine could not perform
    /// itself, so that a give-up is never mistaken for "everything was tried".
    pub untried_routes: Vec<String>,
    /// Playwright MCP can only be driven from the agent session.
    pub must_invoke_playwright_mcp: bool,
}

impl FetchResult {
    /// Length of the fetched body in bytes (its UTF-8 encoding).
    pub open spec fn spec_content_length(&self) -> usize {
        vstd::utf8::encode_utf8(self.content@).len() as usize
    }

    /// Length of the fetched body in bytes (its UTF-8 encoding).
    pub fn content_length(&self) -> (n: usize)
        ensures
            n == self.spec_content_length(),
    {
        self.content.as_str().len()
    }
}

} // verus!
