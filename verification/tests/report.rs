use adaptive_fetch::report::{exit_status, render_report};
use adaptive_fetch::{Attempt, FetchResult, Verdict};

fn failed_result() -> FetchResult {
    FetchResult {
        ok: false,
        content: String::new(),
        final_url: "https://www.reddit.com/.rss".to_string(),
        verdict: Verdict::Blocked,
        profile_used: Some("plain".to_string()),
        trace: vec![Attempt {
            phase: "phase0".to_string(),
            executor: "phase0:reddit:rss".to_string(),
            url: "https://www.reddit.com/.rss".to_string(),
            url_transform: "-".to_string(),
            impersonate: None,
            referer: "none".to_string(),
            status: 403,
            body_size: 0,
            verdict: Verdict::Blocked,
            reasons: vec!["http 403".to_string()],
            elapsed_ms: 12,
            error: None,
        }],
        summary: "phase0 reddit:rss: http 403".to_string(),
        planned_attempts: 1,
        executed_attempts: 1,
        grid_exhausted: false,
        stop_reason: "phase0_failed".to_string(),
        untried_routes: vec!["M2: grid".to_string(), "M4: Playwright fallback".to_string()],
        must_invoke_playwright_mcp: true,
    }
}

#[test]
fn a_failure_report_names_the_untried_routes() {
    let r = failed_result();
    assert_eq!(
        render_report(&r, false),
        "verdict=Blocked stop=phase0_failed profile=plain attempts=1/1 content=0B\n\
         \n\u{26d4} NOT EXHAUSTED \u{2014} untried routes remain:\n  - M2: grid\n  - M4: Playwright fallback\n  ! Playwright MCP must be driven from the agent session.\n"
    );
    assert_eq!(exit_status(&r), 1);
}

#[test]
fn the_trace_lines_are_numbered_and_an_exhausted_grid_says_so() {
    let mut r = failed_result();
    r.grid_exhausted = true;
    r.must_invoke_playwright_mcp = false;
    assert_eq!(
        render_report(&r, true),
        "verdict=Blocked stop=phase0_failed profile=plain attempts=1/1 content=0B\n  \
         [0] phase0 phase0:reddit:rss - - referer:none -> Blocked (403)\n\
         \n\u{26d4} GRID EXHAUSTED \u{2014} escalation routes remain:\n  - M2: grid\n  - M4: Playwright fallback\n"
    );
}

#[test]
fn a_success_report_has_no_failure_gate() {
    let mut r = failed_result();
    r.ok = true;
    r.verdict = Verdict::WeakOk;
    r.content = "<rss>é</rss>".to_string();
    r.stop_reason = "success".to_string();
    r.profile_used = None;
    assert_eq!(
        render_report(&r, false),
        "verdict=WeakOk stop=success profile=- attempts=1/1 content=13B\n"
    );
    assert_eq!(exit_status(&r), 0);
}
