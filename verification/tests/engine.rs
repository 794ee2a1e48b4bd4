use adaptive_fetch::phase0::{Platform, Route};
use adaptive_fetch::transport::Fetched;
use adaptive_fetch::fetch_routed;
use adaptive_fetch::{fetch, fetch_plan, FetchOptions, Verdict};

fn reddit_response(status: u16, body: &str) -> Fetched {
    Fetched {
        status,
        final_url: "https://www.reddit.com/r/rust/.rss".to_string(),
        body: body.to_string(),
        elapsed_ms: 42,
        impersonate: "plain".to_string(),
    }
}

#[test]
fn scaffold_returns_honest_unimplemented_result() {
    let r = fetch("https://example.com", &FetchOptions::default(), None);
    assert!(!r.ok);
    assert_eq!(r.stop_reason, "unimplemented");
    assert_eq!(r.final_url, "https://example.com");
    assert!(!r.untried_routes.is_empty());
}

#[test]
fn verdict_terminality() {
    assert!(Verdict::StrongOk.is_ok());
    assert!(!Verdict::SuspectOk.is_ok());
    assert!(Verdict::NotFound.is_terminal_nonsuccess());
    assert!(!Verdict::Challenge.is_terminal_nonsuccess());
    // 429 is transient, not terminal, but it still stops the TLS grid.
    assert!(!Verdict::RateLimited.is_terminal_nonsuccess());
    assert!(Verdict::RateLimited.is_grid_stop());
    assert!(Verdict::NotFound.is_grid_stop());
    assert!(!Verdict::Challenge.is_grid_stop());
}

#[test]
fn defaults_are_exhaustive() {
    assert_eq!(FetchOptions::default().max_attempts, None);
}

#[test]
fn fetch_plan_routes_reddit_and_only_with_phase0() {
    let opts = FetchOptions::default();
    let plan = fetch_plan("https://reddit.com/r/rust", &opts).expect("reddit is routed");
    assert_eq!(plan.url, "https://www.reddit.com/r/rust/.rss");
    assert_eq!(plan.name, "reddit:rss");
    assert!(fetch_plan("https://example.com/", &opts).is_none());
    let mut off = FetchOptions::default();
    off.enable_phase0 = false;
    assert!(fetch_plan("https://reddit.com/r/rust", &off).is_none());
}

#[test]
fn reddit_feed_is_fetched_end_to_end() {
    let body = "<?xml version=\"1.0\"?><feed xmlns=\"http://www.w3.org/2005/Atom\"></feed>";
    let r = fetch(
        "https://www.reddit.com/r/rust",
        &FetchOptions::default(),
        Some(Ok(reddit_response(200, body))),
    );
    assert!(r.ok);
    assert_eq!(r.verdict, Verdict::WeakOk);
    assert_eq!(r.content, body);
    assert_eq!(r.stop_reason, "success");
    assert_eq!(r.final_url, "https://www.reddit.com/r/rust/.rss");
    assert_eq!(r.profile_used.as_deref(), Some("plain"));
    assert_eq!(r.summary, "phase0 reddit:rss: rss/atom feed");
    assert_eq!(r.planned_attempts, 1);
    assert_eq!(r.executed_attempts, 1);
    assert!(r.untried_routes.is_empty());
    assert_eq!(r.trace.len(), 1);
    assert_eq!(r.trace[0].executor, "phase0:reddit:rss");
    assert_eq!(r.trace[0].body_size, body.len());
    assert_eq!(r.trace[0].elapsed_ms, 42);
}

#[test]
fn reddit_block_is_an_honest_non_success() {
    let r = fetch(
        "https://www.reddit.com/r/rust",
        &FetchOptions::default(),
        Some(Ok(reddit_response(403, "<html>blocked</html>"))),
    );
    assert!(!r.ok);
    assert_eq!(r.verdict, Verdict::Blocked);
    assert_eq!(r.content, "");
    assert_eq!(r.stop_reason, "phase0_failed");
    assert_eq!(r.summary, "phase0 reddit:rss: http 403");
    assert_eq!(
        r.untried_routes,
        vec![
            "M1: probe + 4-layer validation + SSRF transport".to_string(),
            "M2: diversity grid scheduler + WAF detection".to_string(),
            "M4: Playwright fallback".to_string(),
        ]
    );
}

#[test]
fn reddit_terminal_verdicts_name_the_stop_reason() {
    let opts = FetchOptions::default();
    let gone = fetch("https://www.reddit.com/r/x", &opts, Some(Ok(reddit_response(404, ""))));
    assert_eq!(gone.verdict, Verdict::NotFound);
    assert_eq!(gone.stop_reason, "not_found");
    let auth = fetch("https://www.reddit.com/r/x", &opts, Some(Ok(reddit_response(401, ""))));
    assert_eq!(auth.verdict, Verdict::AuthRequired);
    assert_eq!(auth.stop_reason, "auth_required");
    let page = fetch(
        "https://www.reddit.com/r/x",
        &opts,
        Some(Ok(reddit_response(200, "<html><body>hi</body></html>"))),
    );
    assert_eq!(page.verdict, Verdict::Challenge);
    assert_eq!(page.stop_reason, "phase0_failed");
    assert!(!page.ok);
}

#[test]
fn reddit_network_error_is_reported() {
    let r = fetch(
        "https://www.reddit.com/r/rust",
        &FetchOptions::default(),
        Some(Err("connection refused".to_string())),
    );
    assert!(!r.ok);
    assert_eq!(r.verdict, Verdict::Unknown);
    assert_eq!(r.stop_reason, "error");
    assert_eq!(r.summary, "phase0 reddit:rss: connection refused");
    assert_eq!(r.trace.len(), 1);
    assert_eq!(r.trace[0].error.as_deref(), Some("connection refused"));
    assert_eq!(r.final_url, "https://www.reddit.com/r/rust/.rss");
    assert_eq!(r.untried_routes.len(), 3);
}

#[test]
fn reddit_without_a_get_is_not_fetched() {
    let r = fetch("https://www.reddit.com/r/rust", &FetchOptions::default(), None);
    assert!(!r.ok);
    assert_eq!(r.stop_reason, "error");
    assert_eq!(r.summary, "phase0 reddit:rss: not fetched");
    assert!(r.trace.is_empty());
    assert_eq!(r.executed_attempts, 0);
}

#[test]
fn phase0_disabled_falls_back_to_the_scaffold() {
    let mut off = FetchOptions::default();
    off.enable_phase0 = false;
    let r = fetch("https://www.reddit.com/r/rust", &off, None);
    assert_eq!(r.stop_reason, "unimplemented");
    assert_eq!(r.untried_routes.len(), 4);
}

#[test]
fn a_route_is_judged_by_its_response() {
    let rt = Route {
        platform: Platform::Reddit,
        name: "reddit:rss".to_string(),
        url: "https://www.reddit.com/.rss".to_string(),
    };
    let limited = fetch_routed(&rt, Some(Ok(reddit_response(429, ""))));
    assert_eq!(limited.verdict, Verdict::RateLimited);
    assert_eq!(limited.stop_reason, "phase0_failed");
    assert_eq!(limited.trace[0].url, "https://www.reddit.com/.rss");
    assert_eq!(limited.trace[0].reasons, vec!["http 429".to_string()]);
    let gone = fetch_routed(&rt, Some(Ok(reddit_response(0, ""))));
    assert_eq!(gone.verdict, Verdict::Unknown);
    assert_eq!(gone.summary, "phase0 reddit:rss: http 0");
}

#[test]
fn a_zero_budget_stops_before_the_get() {
    let mut opts = FetchOptions::default();
    opts.max_attempts = Some(0);
    assert!(fetch_plan("https://www.reddit.com/r/rust", &opts).is_none());
    let r = fetch(
        "https://www.reddit.com/r/rust",
        &opts,
        Some(Ok(reddit_response(200, "<rss></rss>"))),
    );
    assert!(!r.ok);
    assert_eq!(r.stop_reason, "budget");
    assert_eq!(r.executed_attempts, 0);
    assert_eq!(r.planned_attempts, 0);
    assert!(!r.grid_exhausted);
    assert!(r.content.is_empty());
    assert_eq!(r.summary, "phase0 reddit:rss: attempt budget is 0");
    assert_eq!(r.untried_routes.len(), 3);
}

#[test]
fn a_budget_of_one_allows_the_route() {
    let mut opts = FetchOptions::default();
    opts.max_attempts = Some(1);
    assert!(fetch_plan("https://www.reddit.com/r/rust", &opts).is_some());
    let r = fetch(
        "https://www.reddit.com/r/rust",
        &opts,
        Some(Ok(reddit_response(200, "<rss></rss>"))),
    );
    assert!(r.ok);
    assert_eq!(r.executed_attempts, 1);
    // a zero budget on a URL no route serves still answers the scaffold
    let mut zero = FetchOptions::default();
    zero.max_attempts = Some(0);
    assert_eq!(fetch("https://example.com/", &zero, None).stop_reason, "unimplemented");
}
