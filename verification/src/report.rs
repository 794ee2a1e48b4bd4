//! The command line's plain-text report of a fetch, written to stderr: a
//! summary line, optionally one line per attempt, and, for a failure with
//! routes left, the failure-gate block that tells the agent it must go on.

use vstd::prelude::*;
use crate::result::{Attempt, FetchResult};
use crate::text::{decimal, push_decimal, push_str};

verus! {

broadcast use vstd::string::group_string_axioms;

/// An optional text, or `-` when absent.
pub open spec fn or_dash(o: Option<String>) -> Seq<char> {
    match o {
        Some(s) => s@,
        None => "-"@,
    }
}

/// `verdict=<v> stop=<reason> profile=<p> attempts=<done>/<planned>
/// content=<bytes>B`, then a line break.
pub open spec fn summary_line(r: FetchResult) -> Seq<char> {
    "verdict="@ + r.verdict.spec_name() + " stop="@ + r.stop_reason@ + " profile="@ + or_dash(
        r.profile_used,
    ) + " attempts="@ + decimal(r.executed_attempts as nat) + "/"@ + decimal(
        r.planned_attempts as nat,
    ) + " content="@ + decimal(r.spec_content_length() as nat) + "B\n"@
}

/// The trace line of attempt number `i`.
pub open spec fn trace_line(i: nat, a: Attempt) -> Seq<char> {
    "  ["@ + decimal(i) + "] "@ + a.phase@ + " "@ + a.executor@ + " "@ + or_dash(a.impersonate)
        + " "@ + a.url_transform@ + " referer:"@ + a.referer@ + " -> "@ + a.verdict.spec_name()
        + " ("@ + decimal(a.status as nat) + ")\n"@
}

/// One trace line per attempt, numbered from 0, in order.
pub open spec fn trace_lines(t: Seq<Attempt>) -> Seq<char>
    decreases t.len(),
{
    if t.len() == 0 {
        Seq::empty()
    } else {
        trace_lines(t.drop_last()) + trace_line((t.len() - 1) as nat, t.last())
    }
}

/// One `  - <route>` line per untried route, in order.
pub open spec fn route_lines(routes: Seq<Seq<char>>) -> Seq<char>
    decreases routes.len(),
{
    if routes.len() == 0 {
        Seq::empty()
    } else {
        route_lines(routes.drop_last()) + "  - "@ + routes.last() + "\n"@
    }
}

/// The failure gate's heading: whether re-running could still help.
pub open spec fn gate_heading(grid_exhausted: bool) -> Seq<char> {
    if grid_exhausted {
        "\n\u{26d4} GRID EXHAUSTED \u{2014} escalation routes remain:\n"@
    } else {
        "\n\u{26d4} NOT EXHAUSTED \u{2014} untried routes remain:\n"@
    }
}

/// The line that hands Playwright MCP to the agent session, when it must be
/// driven.
pub open spec fn mcp_line(must: bool) -> Seq<char> {
    if must {
        "  ! Playwright MCP must be driven from the agent session.\n"@
    } else {
        Seq::empty()
    }
}

/// The failure gate: for a failure with untried routes, the heading, the
/// routes and the Playwright MCP line; nothing otherwise.
pub open spec fn gate_block(r: FetchResult) -> Seq<char> {
    if !r.ok && r.untried_routes@.len() > 0 {
        gate_heading(r.grid_exhausted) + route_lines(r.untried_routes@.map_values(|s: String| s@))
            + mcp_line(r.must_invoke_playwright_mcp)
    } else {
        Seq::empty()
    }
}

/// The whole stderr report of `r`, with the trace lines when asked for.
pub open spec fn report_text(r: FetchResult, with_trace: bool) -> Seq<char> {
    summary_line(r) + (if with_trace {
        trace_lines(r.trace@)
    } else {
        Seq::empty()
    }) + gate_block(r)
}

fn push_or_dash(out: &mut String, o: &Option<String>)
    ensures
        final(out)@ == old(out)@ + or_dash(*o),
{
    match o {
        Some(s) => push_str(out, s.as_str()),
        None => push_str(out, "-"),
    }
}

fn push_summary_line(out: &mut String, r: &FetchResult)
    ensures
        final(out)@ == old(out)@ + summary_line(*r),
{
    let ghost start = out@;
    push_str(out, "verdict=");
    push_str(out, r.verdict.name());
    push_str(out, " stop=");
    push_str(out, r.stop_reason.as_str());
    push_str(out, " profile=");
    push_or_dash(out, &r.profile_used);
    push_str(out, " attempts=");
    push_decimal(out, r.executed_attempts as u64);
    push_str(out, "/");
    push_decimal(out, r.planned_attempts as u64);
    push_str(out, " content=");
    push_decimal(out, r.content_length() as u64);
    push_str(out, "B\n");
    assert(out@ =~= start + summary_line(*r));
}

fn push_trace_line(out: &mut String, i: usize, a: &Attempt)
    ensures
        final(out)@ == old(out)@ + trace_line(i as nat, *a),
{
    let ghost start = out@;
    push_str(out, "  [");
    push_decimal(out, i as u64);
    push_str(out, "] ");
    push_str(out, a.phase.as_str());
    push_str(out, " ");
    push_str(out, a.executor.as_str());
    push_str(out, " ");
    push_or_dash(out, &a.impersonate);
    push_str(out, " ");
    push_str(out, a.url_transform.as_str());
    push_str(out, " referer:");
    push_str(out, a.referer.as_str());
    push_str(out, " -> ");
    push_str(out, a.verdict.name());
    push_str(out, " (");
    push_decimal(out, a.status as u64);
    push_str(out, ")\n");
    assert(out@ =~= start + trace_line(i as nat, *a));
}

fn push_trace_lines(out: &mut String, t: &Vec<Attempt>)
    ensures
        final(out)@ == old(out)@ + trace_lines(t@),
{
    let ghost start = out@;
    let mut i: usize = 0;
    while i < t.len()
        invariant
            i <= t@.len(),
            out@ == start + trace_lines(t@.take(i as int)),
        decreases t@.len() - i,
    {
        push_trace_line(out, i, &t[i]);
        proof {
            let next = t@.take(i + 1);
            assert(next.drop_last() =~= t@.take(i as int));
            assert(next.last() == t@[i as int]);
            assert(out@ =~= start + trace_lines(next));
        }
        i += 1;
    }
    assert(t@.take(t@.len() as int) =~= t@);
}

fn push_route_lines(out: &mut String, routes: &Vec<String>)
    ensures
        final(out)@ == old(out)@ + route_lines(routes@.map_values(|s: String| s@)),
{
    let ghost start = out@;
    let ghost views = routes@.map_values(|s: String| s@);
    let mut i: usize = 0;
    while i < routes.len()
        invariant
            i <= routes@.len(),
            views == routes@.map_values(|s: String| s@),
            out@ == start + route_lines(views.take(i as int)),
        decreases routes@.len() - i,
    {
        push_str(out, "  - ");
        push_str(out, routes[i].as_str());
        push_str(out, "\n");
        proof {
            let next = views.take(i + 1);
            assert(next.drop_last() =~= views.take(i as int));
            assert(next.last() == routes@[i as int]@);
            assert(out@ =~= start + route_lines(next));
        }
        i += 1;
    }
    assert(views.take(views.len() as int) =~= views);
}

/// The stderr report of `r`: the summary line, the trace lines when
/// `with_trace`, and the failure gate, which a failure with untried routes
/// never goes without.
pub fn render_report(r: &FetchResult, with_trace: bool) -> (s: String)
    ensures
        s@ == report_text(*r, with_trace),
{
    let mut s = String::new();
    push_summary_line(&mut s, r);
    let ghost after_summary = s@;
    if with_trace {
        push_trace_lines(&mut s, &r.trace);
    }
    let ghost after_trace = s@;
    if !r.ok && r.untried_routes.len() > 0 {
        if r.grid_exhausted {
            push_str(&mut s, "\n\u{26d4} GRID EXHAUSTED \u{2014} escalation routes remain:\n");
        } else {
            push_str(&mut s, "\n\u{26d4} NOT EXHAUSTED \u{2014} untried routes remain:\n");
        }
        push_route_lines(&mut s, &r.untried_routes);
        if r.must_invoke_playwright_mcp {
            push_str(&mut s, "  ! Playwright MCP must be driven from the agent session.\n");
        }
        assert(s@ =~= after_trace + gate_block(*r));
    } else {
        assert(s@ =~= after_trace + gate_block(*r));
    }
    assert(s@ =~= report_text(*r, with_trace));
    s
}

/// The process exit status of a fetch: 0 for a validated success, 1
/// otherwise.
pub fn exit_status(r: &FetchResult) -> (code: u8)
    ensures
        code == (if r.ok { 0u8 } else { 1u8 }),
{
    if r.ok {
        0
    } else {
        1
    }
}

/// A failure is never silent in the report: when a fetch fails with routes
/// left, the report ends with the failure gate, whose heading says whether
/// the grid is exhausted and which lists every untried route, in order.
pub proof fn lemma_failure_report_lists_routes(r: FetchResult, with_trace: bool)
    requires
        !r.ok,
        r.untried_routes@.len() > 0,
    ensures
        report_text(r, with_trace) == summary_line(r) + (if with_trace {
            trace_lines(r.trace@)
        } else {
            Seq::empty()
        }) + gate_heading(r.grid_exhausted) + route_lines(
            r.untried_routes@.map_values(|s: String| s@),
        ) + mcp_line(r.must_invoke_playwright_mcp),
{
    let pre = summary_line(r) + (if with_trace {
        trace_lines(r.trace@)
    } else {
        Seq::empty()
    });
    let h = gate_heading(r.grid_exhausted);
    let rl = route_lines(r.untried_routes@.map_values(|s: String| s@));
    let m = mcp_line(r.must_invoke_playwright_mcp);
    assert(pre + (h + rl + m) =~= pre + h + rl + m);
}

} // verus!
