//! # adaptive-fetch engine
//!
//! A resilient, site-agnostic public-page reader. When a fetch is blocked it
//! escalates through cheap to expensive bypass strategies and stops as soon as
//! a validated success is found:
//!
//! ```text
//! probe -> validate -> detect -> plan -> execute (grid) -> fallback -> report
//! ```
//!
//! This crate holds the engine's decisions with their contracts: response
//! validation, URL preset matching, the SSRF guard, the official-endpoint
//! router and the redirect rules of the transport.

pub mod ipaddr;
pub mod options;
pub mod phase0;
pub mod presets;
pub mod report;
pub mod result;
pub mod safety;
pub mod text;
pub mod transport;
pub mod validators;
pub mod weburl;

pub use options::{DeviceClass, FetchOptions, UserHint};
pub use presets::{PresetFile, UrlPreset};
pub use result::{Attempt, FetchResult, Verdict};

use vstd::prelude::*;
use crate::phase0::{route, route_view, spec_route, Route};
use crate::text::{owned, push_str};
use crate::transport::Fetched;
use crate::validators::{feed_reason, feed_verdict, validate_feed};

verus! {

/// Whether the engine can service a real fetch for every host yet. It is
/// `false`: only hosts with an official-endpoint route are fetched; callers
/// ask [`phase0::can_route`] per URL.
pub const ENGINE_READY: bool = false;

broadcast use vstd::string::group_string_axioms;

/// The escalation routes a fetch reports as untried when no route serves the
/// URL.
pub open spec fn scaffold_untried_routes() -> Seq<Seq<char>> {
    seq![
        "M1: probe + 4-layer validation + SSRF transport"@,
        "M2: diversity grid scheduler + WAF detection"@,
        "M3: Phase 0 official-API router"@,
        "M4: Playwright fallback"@,
    ]
}

/// The grid-fallback routes a failed official-endpoint fetch reports as
/// untried.
pub open spec fn fallback_untried_routes() -> Seq<Seq<char>> {
    seq![
        "M1: probe + 4-layer validation + SSRF transport"@,
        "M2: diversity grid scheduler + WAF detection"@,
        "M4: Playwright fallback"@,
    ]
}

/// The official-endpoint route that serves a fetch of `url`, if any: the
/// Phase 0 route, when Phase 0 is enabled.
pub open spec fn phase0_route(url: Seq<char>, opts: FetchOptions) -> Option<(phase0::Platform, Seq<char>, Seq<char>)> {
    if opts.enable_phase0 {
        spec_route(url)
    } else {
        None
    }
}

/// Whether the caller's attempt budget allows no attempt at all
/// (`max_attempts = Some(0)`; `None` is exhaustive).
pub open spec fn budget_spent(opts: FetchOptions) -> bool {
    opts.max_attempts == Some(0u32)
}

/// The GET a fetch of `url` asks for: the Phase 0 route, when one serves the
/// URL and the attempt budget allows an attempt.
pub open spec fn planned_route(url: Seq<char>, opts: FetchOptions) -> Option<(phase0::Platform, Seq<char>, Seq<char>)> {
    if budget_spent(opts) {
        None
    } else {
        phase0_route(url, opts)
    }
}

/// Why a routed fetch stopped, given the verdict on the endpoint's response:
/// `success`, `auth_required`, `not_found`, or `phase0_failed` for any other
/// failure, which leaves the grid untried rather than exhausted.
pub open spec fn phase0_stop_reason(v: Verdict) -> Seq<char> {
    if v.spec_is_ok() {
        "success"@
    } else if v == Verdict::AuthRequired {
        "auth_required"@
    } else if v == Verdict::NotFound {
        "not_found"@
    } else {
        "phase0_failed"@
    }
}

/// The result of a fetch that no route serves: an honest "not implemented".
pub open spec fn is_scaffold_result(r: FetchResult, url: Seq<char>) -> bool {
    &&& !r.ok
    &&& r.content@.len() == 0
    &&& r.final_url@ == url
    &&& r.verdict == Verdict::Unknown
    &&& r.profile_used is None
    &&& r.trace@.len() == 0
    &&& r.summary@ == "engine not implemented yet (M0 scaffold)"@
    &&& r.planned_attempts == 0
    &&& r.executed_attempts == 0
    &&& !r.grid_exhausted
    &&& r.stop_reason@ == "unimplemented"@
    &&& r.untried_routes@.map_values(|s: String| s@) == scaffold_untried_routes()
    &&& !r.must_invoke_playwright_mcp
}

/// The untried routes of a routed fetch: none on success, the grid fallback
/// otherwise.
pub open spec fn routed_untried(r: FetchResult) -> bool {
    if r.ok {
        r.untried_routes@.len() == 0
    } else {
        r.untried_routes@.map_values(|s: String| s@) == fallback_untried_routes()
    }
}

/// The result of a routed fetch whose endpoint answered with `f`: the
/// response is judged by [`validators::validate_feed`], and the body is the
/// content exactly when the verdict is a success.
pub open spec fn is_answered_result(r: FetchResult, rt: (phase0::Platform, Seq<char>, Seq<char>), f: Fetched) -> bool {
    let v = feed_verdict(f.status, f.body@);
    &&& r.verdict == v
    &&& r.ok == v.spec_is_ok()
    &&& r.content@ == (if v.spec_is_ok() { f.body@ } else { Seq::empty() })
    &&& r.final_url@ == f.final_url@
    &&& r.profile_used matches Some(p) && p@ == f.impersonate@
    &&& r.trace@.len() == 1
    &&& r.trace@[0].phase@ == "phase0"@
    &&& r.trace@[0].executor@ == "phase0:"@ + rt.1
    &&& r.trace@[0].url@ == rt.2
    &&& r.trace@[0].url_transform@ == "-"@
    &&& r.trace@[0].impersonate matches Some(p) && p@ == f.impersonate@
    &&& r.trace@[0].referer@ == "none"@
    &&& r.trace@[0].status == f.status
    &&& r.trace@[0].body_size == vstd::utf8::encode_utf8(f.body@).len() as usize
    &&& r.trace@[0].verdict == v
    &&& r.trace@[0].reasons@.map_values(|s: String| s@) == seq![feed_reason(f.status, f.body@)]
    &&& r.trace@[0].elapsed_ms == f.elapsed_ms
    &&& r.trace@[0].error is None
    &&& r.summary@ == "phase0 "@ + rt.1 + ": "@ + feed_reason(f.status, f.body@)
    &&& r.planned_attempts == 1
    &&& r.executed_attempts == 1
    &&& !r.grid_exhausted
    &&& r.stop_reason@ == phase0_stop_reason(v)
    &&& routed_untried(r)
    &&& !r.must_invoke_playwright_mcp
}

/// The result of a routed fetch whose endpoint gave no response: the error
/// (`error`, or `not fetched` when no GET was made) is reported, the verdict
/// is unknown.
pub open spec fn is_unanswered_result(r: FetchResult, rt: (phase0::Platform, Seq<char>, Seq<char>), error: Option<Seq<char>>) -> bool {
    let msg = match error {
        Some(e) => e,
        None => "not fetched"@,
    };
    &&& !r.ok
    &&& r.verdict == Verdict::Unknown
    &&& r.content@.len() == 0
    &&& r.final_url@ == rt.2
    &&& r.profile_used is None
    &&& r.trace@.len() == (if error is Some { 1int } else { 0int })
    &&& error is Some ==> {
        &&& r.trace@[0].phase@ == "phase0"@
        &&& r.trace@[0].executor@ == "phase0:"@ + rt.1
        &&& r.trace@[0].url@ == rt.2
        &&& r.trace@[0].url_transform@ == "-"@
        &&& r.trace@[0].impersonate is None
        &&& r.trace@[0].referer@ == "none"@
        &&& r.trace@[0].status == 0
        &&& r.trace@[0].body_size == 0
        &&& r.trace@[0].verdict == Verdict::Unknown
        &&& r.trace@[0].reasons@.len() == 0
        &&& r.trace@[0].elapsed_ms == 0
        &&& r.trace@[0].error matches Some(e) && e@ == msg
    }
    &&& r.summary@ == "phase0 "@ + rt.1 + ": "@ + msg
    &&& r.planned_attempts == 1
    &&& r.executed_attempts == (if error is Some { 1u32 } else { 0u32 })
    &&& !r.grid_exhausted
    &&& r.stop_reason@ == "error"@
    &&& routed_untried(r)
    &&& !r.must_invoke_playwright_mcp
}

/// The result of a routed fetch that the attempt budget stops before any
/// attempt: nothing is fetched and the grid-fallback routes stay untried.
pub open spec fn is_budget_result(r: FetchResult, rt: (phase0::Platform, Seq<char>, Seq<char>)) -> bool {
    &&& !r.ok
    &&& r.verdict == Verdict::Unknown
    &&& r.content@.len() == 0
    &&& r.final_url@ == rt.2
    &&& r.profile_used is None
    &&& r.trace@.len() == 0
    &&& r.summary@ == "phase0 "@ + rt.1 + ": "@ + "attempt budget is 0"@
    &&& r.planned_attempts == 0
    &&& r.executed_attempts == 0
    &&& !r.grid_exhausted
    &&& r.stop_reason@ == "budget"@
    &&& r.untried_routes@.map_values(|s: String| s@) == fallback_untried_routes()
    &&& !r.must_invoke_playwright_mcp
}

/// The official endpoint a fetch of `url` starts with, when a route serves
/// it and the attempt budget allows an attempt: the caller performs the GET
/// (through the transport's redirect walk) and hands the outcome to
/// [`fetch`].
pub fn fetch_plan(url: &str, opts: &FetchOptions) -> (r: Option<Route>)
    ensures
        route_view(r) == planned_route(url@, *opts),
{
    if opts.enable_phase0 && opts.max_attempts != Some(0u32) {
        route(url)
    } else {
        None
    }
}

fn strings3(a: &str, b: &str, c: &str) -> (v: Vec<String>)
    ensures
        v@.map_values(|s: String| s@) == seq![a@, b@, c@],
{
    let v = vec![owned(a), owned(b), owned(c)];
    assert(v@.map_values(|s: String| s@) =~= seq![a@, b@, c@]);
    v
}

fn fallback_routes() -> (v: Vec<String>)
    ensures
        v@.map_values(|s: String| s@) == fallback_untried_routes(),
        v@.len() == 3,
{
    let v = strings3(
        "M1: probe + 4-layer validation + SSRF transport",
        "M2: diversity grid scheduler + WAF detection",
        "M4: Playwright fallback",
    );
    assert(v@.len() == v@.map_values(|s: String| s@).len());
    v
}

fn stop_reason_for(v: Verdict) -> (s: String)
    ensures
        s@ == phase0_stop_reason(v),
{
    if v.is_ok() {
        owned("success")
    } else if matches!(v, Verdict::AuthRequired) {
        owned("auth_required")
    } else if matches!(v, Verdict::NotFound) {
        owned("not_found")
    } else {
        owned("phase0_failed")
    }
}

fn summary_for(name: &str, detail: &str) -> (s: String)
    ensures
        s@ == "phase0 "@ + name@ + ": "@ + detail@,
{
    let mut s = owned("phase0 ");
    push_str(&mut s, name);
    push_str(&mut s, ": ");
    push_str(&mut s, detail);
    s
}

/// The result of a fetch through the official-endpoint route `rt`, given the
/// outcome of its GET (what [`fetch`] does once the route is known).
pub fn fetch_routed(rt: &Route, network: Option<Result<Fetched, String>>) -> (r: FetchResult)
    ensures
        match network {
            Some(Ok(f)) => is_answered_result(r, (rt.platform, rt.name@, rt.url@), f),
            Some(Err(e)) => is_unanswered_result(r, (rt.platform, rt.name@, rt.url@), Some(e@)),
            None => is_unanswered_result(r, (rt.platform, rt.name@, rt.url@), None),
        },
        !r.ok ==> r.untried_routes@.len() > 0,
{
    let mut executor = owned("phase0:");
    push_str(&mut executor, rt.name.as_str());
    match network {
        Some(Ok(f)) => {
            let (verdict, reasons) = validate_feed(f.status, f.body.as_str());
            let ok = verdict.is_ok();
            let summary = summary_for(rt.name.as_str(), reasons[0].as_str());
            assert(reasons@.map_values(|s: String| s@) =~= seq![feed_reason(f.status, f.body@)]);
            let attempt = Attempt {
                phase: owned("phase0"),
                executor,
                url: owned(rt.url.as_str()),
                url_transform: owned("-"),
                impersonate: Some(owned(f.impersonate.as_str())),
                referer: owned("none"),
                status: f.status,
                body_size: f.body.as_str().len(),
                verdict,
                reasons,
                elapsed_ms: f.elapsed_ms,
                error: None,
            };
            let untried_routes = if ok {
                Vec::new()
            } else {
                fallback_routes()
            };
            proof {
                reveal_strlit("M1: probe + 4-layer validation + SSRF transport");
            }
            FetchResult {
                ok,
                content: if ok {
                    f.body
                } else {
                    String::new()
                },
                final_url: f.final_url,
                verdict,
                profile_used: Some(f.impersonate),
                trace: vec![attempt],
                summary,
                planned_attempts: 1,
                executed_attempts: 1,
                grid_exhausted: false,
                stop_reason: stop_reason_for(verdict),
                untried_routes,
                must_invoke_playwright_mcp: false,
            }
        },
        Some(Err(e)) => {
            let summary = summary_for(rt.name.as_str(), e.as_str());
            let attempt = Attempt {
                phase: owned("phase0"),
                executor,
                url: owned(rt.url.as_str()),
                url_transform: owned("-"),
                impersonate: None,
                referer: owned("none"),
                status: 0,
                body_size: 0,
                verdict: Verdict::Unknown,
                reasons: Vec::new(),
                elapsed_ms: 0,
                error: Some(e),
            };
            FetchResult {
                ok: false,
                content: String::new(),
                final_url: owned(rt.url.as_str()),
                verdict: Verdict::Unknown,
                profile_used: None,
                trace: vec![attempt],
                summary,
                planned_attempts: 1,
                executed_attempts: 1,
                grid_exhausted: false,
                stop_reason: owned("error"),
                untried_routes: fallback_routes(),
                must_invoke_playwright_mcp: false,
            }
        },
        None => {
            FetchResult {
                ok: false,
                content: String::new(),
                final_url: owned(rt.url.as_str()),
                verdict: Verdict::Unknown,
                profile_used: None,
                trace: Vec::new(),
                summary: summary_for(rt.name.as_str(), "not fetched"),
                planned_attempts: 1,
                executed_attempts: 0,
                grid_exhausted: false,
                stop_reason: owned("error"),
                untried_routes: fallback_routes(),
                must_invoke_playwright_mcp: false,
            }
        },
    }
}

/// The `check-url` hook never strands a request: a URL it reports as
/// engine-ready (a route exists for it, see [`presets::PresetFile::check_url`])
/// is served by that route whenever Phase 0 is enabled, so [`fetch`] never
/// answers it "unimplemented"; the GET is planned unless the attempt budget
/// is 0.
pub proof fn lemma_ready_urls_are_routed(url: Seq<char>, opts: FetchOptions)
    requires
        phase0::spec_route(url) is Some,
        opts.enable_phase0,
    ensures
        phase0_route(url, opts) == phase0::spec_route(url),
        !budget_spent(opts) ==> planned_route(url, opts) == phase0::spec_route(url),
        budget_spent(opts) ==> planned_route(url, opts) is None,
{
}

proof fn lemma_routed_stop_reasons(v: Verdict)
    ensures
        phase0_stop_reason(v) != "unimplemented"@,
        "error"@ != "unimplemented"@,
        "budget"@ != "unimplemented"@,
{
    reveal_strlit("unimplemented");
    reveal_strlit("success");
    reveal_strlit("auth_required");
    reveal_strlit("not_found");
    reveal_strlit("phase0_failed");
    reveal_strlit("error");
    reveal_strlit("budget");
    assert("unimplemented"@[0] == 'u');
    assert(phase0_stop_reason(v)[0] != 'u');
    assert("error"@[0] != 'u');
    assert("budget"@[0] != 'u');
}

fn budget_result(rt: &Route) -> (r: FetchResult)
    ensures
        is_budget_result(r, (rt.platform, rt.name@, rt.url@)),
        r.untried_routes@.len() > 0,
{
    FetchResult {
        ok: false,
        content: String::new(),
        final_url: owned(rt.url.as_str()),
        verdict: Verdict::Unknown,
        profile_used: None,
        trace: Vec::new(),
        summary: summary_for(rt.name.as_str(), "attempt budget is 0"),
        planned_attempts: 0,
        executed_attempts: 0,
        grid_exhausted: false,
        stop_reason: owned("budget"),
        untried_routes: fallback_routes(),
        must_invoke_playwright_mcp: false,
    }
}

fn scaffold_result(url: &str) -> (r: FetchResult)
    ensures
        is_scaffold_result(r, url@),
{
    let untried_routes = vec![
        owned("M1: probe + 4-layer validation + SSRF transport"),
        owned("M2: diversity grid scheduler + WAF detection"),
        owned("M3: Phase 0 official-API router"),
        owned("M4: Playwright fallback"),
    ];
    assert(untried_routes@.map_values(|s: String| s@) =~= scaffold_untried_routes());
    FetchResult {
        ok: false,
        content: String::new(),
        final_url: owned(url),
        verdict: Verdict::Unknown,
        profile_used: None,
        trace: Vec::new(),
        summary: owned("engine not implemented yet (M0 scaffold)"),
        planned_attempts: 0,
        executed_attempts: 0,
        grid_exhausted: false,
        stop_reason: owned("unimplemented"),
        untried_routes,
        must_invoke_playwright_mcp: false,
    }
}

/// Fetch `url`, given the outcome of the network step that [`fetch_plan`]
/// asks for.
///
/// When an official-endpoint route serves the URL (and Phase 0 is enabled),
/// `network` is the outcome of the GET of that endpoint (`None` when no GET
/// was made): a response is validated as a feed, the body is the content on
/// success, and a failure reports the grid-fallback routes as untried. An
/// attempt budget of `Some(0)` stops the fetch before the GET
/// (`stop_reason = "budget"`), and no budget is ever exceeded. When no route
/// serves the URL, the engine answers an honest "not implemented"
/// (`stop_reason = "unimplemented"`) and `network` is not read. A failed fetch
/// is never silent: `untried_routes` is non-empty whenever `ok` is false, and
/// a success always carries a non-empty body.
pub fn fetch(url: &str, opts: &FetchOptions, network: Option<Result<Fetched, String>>) -> (r: FetchResult)
    ensures
        match phase0_route(url@, *opts) {
            None => is_scaffold_result(r, url@),
            Some(rt) => if budget_spent(*opts) {
                is_budget_result(r, rt)
            } else {
                match network {
                    Some(Ok(f)) => is_answered_result(r, rt, f),
                    Some(Err(e)) => is_unanswered_result(r, rt, Some(e@)),
                    None => is_unanswered_result(r, rt, None),
                }
            },
        },
        phase0_route(url@, *opts) is Some ==> r.stop_reason@ != "unimplemented"@,
        opts.max_attempts matches Some(n) ==> r.executed_attempts <= n && r.planned_attempts <= n,
        r.stop_reason@ == "budget"@ ==> !r.grid_exhausted,
        r.ok ==> r.verdict.spec_is_ok() && r.content@.len() > 0,
        !r.ok ==> r.untried_routes@.len() > 0,
{
    let routed = if opts.enable_phase0 {
        route(url)
    } else {
        None
    };
    match routed {
        None => {
            let r = scaffold_result(url);
            assert(r.untried_routes@.len() == r.untried_routes@.map_values(|s: String| s@).len());
            r
        },
        Some(rt) if matches!(opts.max_attempts, Some(0)) => {
            proof {
                lemma_routed_stop_reasons(Verdict::Unknown);
            }
            budget_result(&rt)
        },
        Some(rt) => {
            let ghost answer = network;
            let r = fetch_routed(&rt, network);
            proof {
                lemma_routed_stop_reasons(r.verdict);
                if let Some(Ok(f)) = answer {
                    validators::lemma_feed_success_needs_evidence(f.status, f.body@);
                }
            }
            r
        },
    }
}

} // verus!
