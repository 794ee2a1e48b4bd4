//! Generic URL preset matching.
//!
//! Presets are caller-supplied runtime hints. This module matches URL globs
//! (first match wins, `*` is the only wildcard, case-insensitive), makes the
//! `check-url` decision (the URL's hostname against the globs, and whether the
//! engine has a route for the URL), and formats the suggested command for a
//! matched preset. Reading the preset file from disk is the application's job.

use vstd::prelude::*;
use crate::phase0::{can_route, spec_route};
use crate::text::{ascii_lower, chars_eq, chars_of, lower_ascii, push_char, push_str};
use crate::weburl::{parse_url, url_parse};

verus! {

broadcast use vstd::string::group_string_axioms;

/// Versioned collection of URL presets, evaluated from top to bottom.
#[derive(Debug, Clone)]
pub struct PresetFile {
    /// Preset file format version.
    pub version: u32,
    /// URL presets in first-match-wins order.
    pub presets: Vec<UrlPreset>,
}

/// Runtime hints associated with a URL glob.
#[derive(Debug, Clone)]
pub struct UrlPreset {
    /// URL glob, where `*` is the only wildcard (the `match` key of a preset file).
    pub pattern: String,
    /// Explanation shown when the preset matches.
    pub reason: Option<String>,
    /// Device shaping hint (`auto`, `desktop`, or `mobile`).
    pub device: Option<String>,
    /// Success selectors forwarded to the command line.
    pub selectors: Vec<String>,
    /// Preferred impersonation target for engines that support this hint.
    pub impersonate_first: Option<String>,
    /// Preferred referer strategy for engines that support this hint.
    pub referer_strategy: Option<String>,
}

// ---------------------------------------------------------------------------
// Case folding (std's Unicode `to_lowercase`)
// ---------------------------------------------------------------------------

/// The Unicode lower-case mapping of a string, as std's `str::to_lowercase`
/// computes it (locale-independent, so a function of the characters alone).
pub uninterp spec fn unicode_lowercase(s: Seq<char>) -> Seq<char>;

/// std's `str::to_lowercase`: the result is named, not described; the Unicode
/// case tables are std's.
#[verifier::external_body]
fn to_lowercase(s: &str) -> (r: String)
    ensures
        r@ == unicode_lowercase(s@),
{
    s.to_lowercase()
}

// ---------------------------------------------------------------------------
// Glob semantics
// ---------------------------------------------------------------------------

/// Wildcard matching: `p[i..]` matches `t[j..]`, where `*` in the pattern
/// matches any run of characters (possibly empty) and every other pattern
/// character matches itself.
pub open spec fn wild(p: Seq<char>, t: Seq<char>, i: int, j: int) -> bool
    decreases (p.len() - i) + (t.len() - j),
    when 0 <= i <= p.len() && 0 <= j <= t.len()
{
    if i == p.len() {
        j == t.len()
    } else if p[i] == '*' {
        wild(p, t, i + 1, j) || (j < t.len() && wild(p, t, i, j + 1))
    } else {
        j < t.len() && p[i] == t[j] && wild(p, t, i + 1, j + 1)
    }
}

/// The whole of `t` matches the glob `p`.
pub open spec fn wildcard_match(p: Seq<char>, t: Seq<char>) -> bool {
    wild(p, t, 0, 0)
}

/// Every pattern character from `i` on is a star.
pub open spec fn only_stars_from(p: Seq<char>, i: int) -> bool {
    forall|k: int| i <= k < p.len() ==> p[k] == '*'
}

/// The matcher's single-backtrack scan, one step per call. The state is the
/// pattern position `pi`, the text position `ti`, the most recent star
/// `star`, and the text position `sti` that star is currently stretched to.
/// A pattern star is always a wildcard, whatever the text holds there.
pub open spec fn glob_scan(p: Seq<char>, t: Seq<char>, pi: int, ti: int, star: Option<int>, sti: int) -> bool
    decreases t.len() - sti, (t.len() - ti) + (p.len() - pi),
    when 0 <= pi <= p.len() && 0 <= sti <= ti <= t.len() && (star matches Some(s) ==> 0 <= s < p.len())
{
    if ti >= t.len() {
        only_stars_from(p, pi)
    } else if pi < p.len() && p[pi] == '*' {
        glob_scan(p, t, pi + 1, ti, Some(pi), ti)
    } else if pi < p.len() && p[pi] == t[ti] {
        glob_scan(p, t, pi + 1, ti + 1, star, sti)
    } else {
        match star {
            Some(s) => glob_scan(p, t, s + 1, sti + 1, star, sti + 1),
            None => false,
        }
    }
}

/// What [`glob_match`] computes on already case-folded pattern and text.
pub open spec fn glob_folded(p: Seq<char>, t: Seq<char>) -> bool {
    glob_scan(p, t, 0, 0, None, 0)
}

/// Whether the glob `pattern` matches `text`: both are case-folded first,
/// then `*` matches any run of characters and anything else matches itself.
pub open spec fn glob_matches(pattern: Seq<char>, text: Seq<char>) -> bool {
    wildcard_match(case_fold(pattern), case_fold(text))
}

/// Whether every character of `s` is ASCII.
pub open spec fn all_ascii(s: Seq<char>) -> bool {
    forall|i: int| 0 <= i < s.len() ==> s[i] < '\u{80}'
}

/// Case folding as the matcher applies it: ASCII text is lower-cased letter
/// by letter (every other ASCII character is kept), and other text by std's
/// Unicode lower-case mapping, which agrees with it on ASCII.
pub open spec fn case_fold(s: Seq<char>) -> Seq<char> {
    if all_ascii(s) {
        ascii_lower(s)
    } else {
        unicode_lowercase(s)
    }
}

// ---------------------------------------------------------------------------
// Lemmas: the scan decides wildcard matching
// ---------------------------------------------------------------------------

/// A star at `i` matches `t[j..]` iff the rest of the pattern matches some suffix
/// `t[k..]` with `k >= j`.
proof fn lemma_star(p: Seq<char>, t: Seq<char>, i: int, j: int)
    requires
        0 <= i < p.len(),
        0 <= j <= t.len(),
        p[i] == '*',
    ensures
        wild(p, t, i, j) <==> exists|k: int| j <= k <= t.len() && #[trigger] wild(p, t, i + 1, k),
    decreases t.len() - j,
{
    assert(wild(p, t, i, j) == (wild(p, t, i + 1, j) || (j < t.len() && wild(p, t, i, j + 1))));
    if j < t.len() {
        lemma_star(p, t, i, j + 1);
        if wild(p, t, i, j) {
            if wild(p, t, i + 1, j) {
                assert(j <= j <= t.len() && wild(p, t, i + 1, j));
            } else {
                assert(wild(p, t, i, j + 1));
                let k = choose|k: int| j + 1 <= k <= t.len() && #[trigger] wild(p, t, i + 1, k);
                assert(j <= k <= t.len() && wild(p, t, i + 1, k));
            }
        }
        if exists|k: int| j <= k <= t.len() && #[trigger] wild(p, t, i + 1, k) {
            let k = choose|k: int| j <= k <= t.len() && #[trigger] wild(p, t, i + 1, k);
            if k == j {
            } else {
                assert(j + 1 <= k <= t.len() && wild(p, t, i + 1, k));
                assert(wild(p, t, i, j + 1));
            }
        }
    } else {
        if wild(p, t, i, j) {
            assert(j <= j <= t.len() && wild(p, t, i + 1, j));
        }
        if exists|k: int| j <= k <= t.len() && #[trigger] wild(p, t, i + 1, k) {
            let k = choose|k: int| j <= k <= t.len() && #[trigger] wild(p, t, i + 1, k);
            assert(k == j);
        }
    }
}

/// `p[a..a+len]` is star-free and spells `t[b..b+len]`.
pub open spec fn literal_run(p: Seq<char>, t: Seq<char>, a: int, b: int, len: int) -> bool {
    &&& 0 <= len
    &&& 0 <= a && a + len <= p.len()
    &&& 0 <= b && b + len <= t.len()
    &&& forall|x: int| 0 <= x < len ==> p[a + x] != '*' && #[trigger] p[a + x] == t[b + x]
}

/// A star-free pattern stretch is matched character by character.
proof fn lemma_literal_run(p: Seq<char>, t: Seq<char>, a: int, b: int, len: int)
    requires
        literal_run(p, t, a, b, len),
    ensures
        wild(p, t, a, b) == wild(p, t, a + len, b + len),
    decreases len,
{
    if len > 0 {
        assert(p[a + 0] != '*' && p[a + 0] == t[b + 0]);
        assert(literal_run(p, t, a + 1, b + 1, len - 1)) by {
            assert forall|x: int| 0 <= x < len - 1 implies p[a + 1 + x] != '*' && #[trigger] p[a
                + 1 + x] == t[b + 1 + x] by {
                assert(p[a + (x + 1)] != '*' && p[a + (x + 1)] == t[b + (x + 1)]);
            }
        }
        lemma_literal_run(p, t, a + 1, b + 1, len - 1);
    }
}

/// If a star-free pattern stretch of length `len` matches from text position
/// `k`, the text there spells the stretch and the rest matches after it.
proof fn lemma_literal_forced(p: Seq<char>, t: Seq<char>, a: int, k: int, len: int)
    requires
        0 <= len,
        0 <= a && a + len <= p.len(),
        0 <= k <= t.len(),
        forall|x: int| 0 <= x < len ==> #[trigger] p[a + x] != '*',
        wild(p, t, a, k),
    ensures
        k + len <= t.len(),
        wild(p, t, a + len, k + len),
    decreases len,
{
    if len > 0 {
        assert(p[a + 0] != '*');
        assert forall|x: int| 0 <= x < len - 1 implies #[trigger] p[a + 1 + x] != '*' by {
            assert(p[a + (x + 1)] != '*');
        }
        lemma_literal_forced(p, t, a + 1, k + 1, len - 1);
    }
}

/// The empty text rest matches iff only stars remain.
proof fn lemma_trailing(p: Seq<char>, t: Seq<char>, i: int)
    requires
        0 <= i <= p.len(),
    ensures
        wild(p, t, i, t.len() as int) == only_stars_from(p, i),
    decreases p.len() - i,
{
    if i < p.len() {
        lemma_trailing(p, t, i + 1);
    }
}

/// The matching obligation a scan state stands for.
pub open spec fn scan_goal(p: Seq<char>, t: Seq<char>, pi: int, ti: int, star: Option<int>, sti: int) -> bool {
    match star {
        None => wild(p, t, pi, ti),
        Some(s) => exists|k: int| sti <= k <= t.len() && #[trigger] wild(p, t, s + 1, k),
    }
}

/// The shape a scan state keeps: behind a recorded star, the pattern read
/// since the star is star-free and spells the text read since `sti`.
pub open spec fn scan_shape(p: Seq<char>, t: Seq<char>, pi: int, ti: int, star: Option<int>, sti: int) -> bool {
    &&& 0 <= pi <= p.len()
    &&& 0 <= sti <= ti <= t.len()
    &&& match star {
        None => sti == 0,
        Some(s) => {
            &&& 0 <= s < pi
            &&& p[s] == '*'
            &&& ti - sti == pi - (s + 1)
            &&& literal_run(p, t, s + 1, sti, pi - (s + 1))
        },
    }
}

/// Each scan step keeps the answer: the scan from a well-shaped state decides
/// the obligation that state stands for.
proof fn lemma_scan_decides(p: Seq<char>, t: Seq<char>, pi: int, ti: int, star: Option<int>, sti: int)
    requires
        scan_shape(p, t, pi, ti, star, sti),
    ensures
        glob_scan(p, t, pi, ti, star, sti) == scan_goal(p, t, pi, ti, star, sti),
    decreases t.len() - sti, (t.len() - ti) + (p.len() - pi),
{
    let n = t.len() as int;
    let m = p.len() as int;
    if ti >= n {
        lemma_trailing(p, t, pi);
        match star {
            None => {},
            Some(s) => {
                let len = pi - (s + 1);
                lemma_literal_run(p, t, s + 1, sti, len);
                if scan_goal(p, t, pi, ti, star, sti) {
                    let k = choose|k: int| sti <= k <= n && #[trigger] wild(p, t, s + 1, k);
                    lemma_literal_forced(p, t, s + 1, k, len);
                    assert(k == sti);
                } else {
                    assert(!wild(p, t, s + 1, sti));
                }
            },
        }
    } else if pi < m && p[pi] == '*' {
        assert(glob_scan(p, t, pi, ti, star, sti) == glob_scan(p, t, pi + 1, ti, Some(pi), ti));
        assert(literal_run(p, t, pi + 1, ti, 0));
        lemma_scan_decides(p, t, pi + 1, ti, Some(pi), ti);
        lemma_star(p, t, pi, ti);
        match star {
            None => {},
            Some(s) => {
                let len = pi - (s + 1);
                lemma_literal_run(p, t, s + 1, sti, len);
                let old_goal = exists|k: int| sti <= k <= n && #[trigger] wild(p, t, s + 1, k);
                let new_goal = exists|k: int| ti <= k <= n && #[trigger] wild(p, t, pi + 1, k);
                if new_goal {
                    assert(wild(p, t, s + 1, sti));
                }
                if old_goal {
                    let k = choose|k: int| sti <= k <= n && #[trigger] wild(p, t, s + 1, k);
                    assert forall|x: int| 0 <= x < len implies #[trigger] p[s + 1 + x] != '*' by {
                        assert(p[s + 1 + x] != '*' && p[s + 1 + x] == t[sti + x]);
                    }
                    lemma_literal_forced(p, t, s + 1, k, len);
                    lemma_star(p, t, pi, k + len);
                    let k2 = choose|k2: int| k + len <= k2 <= n && #[trigger] wild(p, t, pi + 1, k2);
                    assert(ti <= k2 <= n && wild(p, t, pi + 1, k2));
                }
            },
        }
    } else if pi < m && p[pi] == t[ti] {
        assert(p[pi] != '*');
        assert(glob_scan(p, t, pi, ti, star, sti) == glob_scan(p, t, pi + 1, ti + 1, star, sti));
        match star {
            None => {
                assert(wild(p, t, pi, ti) == wild(p, t, pi + 1, ti + 1));
            },
            Some(s) => {
                assert(literal_run(p, t, s + 1, sti, pi + 1 - (s + 1))) by {
                    assert forall|x: int| 0 <= x < pi + 1 - (s + 1) implies p[s + 1 + x] != '*'
                        && #[trigger] p[s + 1 + x] == t[sti + x] by {
                        if x < pi - (s + 1) {
                            assert(p[s + 1 + x] != '*' && p[s + 1 + x] == t[sti + x]);
                        }
                    }
                }
            },
        }
        lemma_scan_decides(p, t, pi + 1, ti + 1, star, sti);
    } else {
        // mismatch: nothing matches from (pi, ti)
        assert(!wild(p, t, pi, ti));
        match star {
            None => {
                assert(!glob_scan(p, t, pi, ti, star, sti));
            },
            Some(s) => {
                assert(glob_scan(p, t, pi, ti, star, sti) == glob_scan(p, t, s + 1, sti + 1, star, sti + 1));
                let len = pi - (s + 1);
                lemma_literal_run(p, t, s + 1, sti, len);
                assert(!wild(p, t, s + 1, sti));
                assert(literal_run(p, t, s + 1, sti + 1, 0));
                lemma_scan_decides(p, t, s + 1, sti + 1, star, sti + 1);
                let old_goal = exists|k: int| sti <= k <= n && #[trigger] wild(p, t, s + 1, k);
                let new_goal = exists|k: int| sti + 1 <= k <= n && #[trigger] wild(p, t, s + 1, k);
                if old_goal {
                    let k = choose|k: int| sti <= k <= n && #[trigger] wild(p, t, s + 1, k);
                    assert(k != sti);
                    assert(sti + 1 <= k <= n && wild(p, t, s + 1, k));
                }
                if new_goal {
                    let k = choose|k: int| sti + 1 <= k <= n && #[trigger] wild(p, t, s + 1, k);
                    assert(sti <= k <= n && wild(p, t, s + 1, k));
                }
            },
        }
    }
}

/// The single-backtrack glob scan decides exactly wildcard matching: `*`
/// matches any run of characters, anything else matches itself.
pub proof fn lemma_glob_is_wildcard_match(p: Seq<char>, t: Seq<char>)
    ensures
        glob_folded(p, t) == wildcard_match(p, t),
{
    lemma_scan_decides(p, t, 0, 0, None, 0);
}

proof fn lemma_wild_literal(p: Seq<char>, t: Seq<char>, i: int, j: int)
    requires
        !p.contains('*'),
        0 <= i <= p.len(),
        0 <= j <= t.len(),
    ensures
        wild(p, t, i, j) == (p.subrange(i, p.len() as int) == t.subrange(j, t.len() as int)),
    decreases p.len() - i,
{
    let ps = p.subrange(i, p.len() as int);
    let ts = t.subrange(j, t.len() as int);
    if i == p.len() {
        if j < t.len() {
            assert(ts.len() > 0);
        } else {
            assert(ps =~= ts);
        }
    } else {
        assert(p[i] != '*') by {
            if p[i] == '*' {
                assert(p.contains('*'));
            }
        }
        if j < t.len() {
            lemma_wild_literal(p, t, i + 1, j + 1);
            if ps == ts {
                assert(ps[0] == ts[0]);
                assert(p.subrange(i + 1, p.len() as int) =~= ps.drop_first());
                assert(t.subrange(j + 1, t.len() as int) =~= ts.drop_first());
            }
            if p[i] == t[j] && p.subrange(i + 1, p.len() as int) == t.subrange(j + 1, t.len() as int) {
                let pr = p.subrange(i + 1, p.len() as int);
                let tr = t.subrange(j + 1, t.len() as int);
                assert(ps.len() == ts.len()) by {
                    assert(pr.len() == tr.len());
                }
                assert forall|k: int| 0 <= k < ps.len() implies ps[k] == ts[k] by {
                    if k > 0 {
                        assert(ps[k] == pr[k - 1]);
                        assert(ts[k] == tr[k - 1]);
                    }
                }
                assert(ps =~= ts);
            }
        } else {
            assert(ps.len() > 0 && ts.len() == 0);
        }
    }
}

/// A glob without `*` matches a text exactly when the two are equal (after
/// case folding, see [`glob_match`]).
pub proof fn lemma_literal_glob(p: Seq<char>, t: Seq<char>)
    requires
        !p.contains('*'),
    ensures
        glob_folded(p, t) == (p == t),
{
    lemma_glob_is_wildcard_match(p, t);
    lemma_wild_literal(p, t, 0, 0);
    assert(p.subrange(0, p.len() as int) =~= p);
    assert(t.subrange(0, t.len() as int) =~= t);
}

// ---------------------------------------------------------------------------
// Executable matcher
// ---------------------------------------------------------------------------

/// A trailing star matches any rest of the text.
proof fn lemma_trailing_star(p: Seq<char>, t: Seq<char>, k: int)
    requires
        p.len() > 0,
        p.last() == '*',
        0 <= k <= t.len(),
    ensures
        wild(p, t, p.len() - 1, k),
    decreases t.len() - k,
{
    let i = p.len() - 1;
    assert(p[i] == '*');
    if k < t.len() {
        lemma_trailing_star(p, t, k + 1);
        assert(wild(p, t, i, k + 1));
    } else {
        assert(wild(p, t, i + 1, k));
    }
}

/// A match of `p[i..]` against `t[j..]` is still a match once a star ends the
/// pattern and anything is appended to the text.
proof fn lemma_extend_with_star(p: Seq<char>, t: Seq<char>, b: Seq<char>, i: int, j: int)
    requires
        0 <= i <= p.len(),
        0 <= j <= t.len(),
        wild(p, t, i, j),
    ensures
        wild(p.push('*'), t + b, i, j),
    decreases (p.len() - i) + (t.len() - j),
{
    let pp = p.push('*');
    let tt = t + b;
    if i == p.len() {
        lemma_trailing_star(pp, tt, j);
    } else if p[i] == '*' {
        assert(pp[i] == '*');
        if wild(p, t, i + 1, j) {
            lemma_extend_with_star(p, t, b, i + 1, j);
        } else {
            lemma_extend_with_star(p, t, b, i, j + 1);
        }
    } else {
        assert(pp[i] == p[i]);
        assert(tt[j] == t[j]);
        lemma_extend_with_star(p, t, b, i + 1, j + 1);
    }
}

/// A match of `p[i..]` against `t[j..]` carries over to a pattern with a star
/// in front and a text with anything in front, shifted past both.
proof fn lemma_shift_after_star(p: Seq<char>, t: Seq<char>, a: Seq<char>, i: int, j: int)
    requires
        0 <= i <= p.len(),
        0 <= j <= t.len(),
        wild(p, t, i, j),
    ensures
        wild(seq!['*'] + p, a + t, i + 1, j + a.len()),
    decreases (p.len() - i) + (t.len() - j),
{
    let pp = seq!['*'] + p;
    let tt = a + t;
    if i == p.len() {
    } else if p[i] == '*' {
        assert(pp[i + 1] == '*');
        if wild(p, t, i + 1, j) {
            lemma_shift_after_star(p, t, a, i + 1, j);
        } else {
            lemma_shift_after_star(p, t, a, i, j + 1);
        }
    } else {
        assert(pp[i + 1] == p[i]);
        assert(tt[j + a.len()] == t[j]);
        lemma_shift_after_star(p, t, a, i + 1, j + 1);
    }
}

/// Matching is monotone under stars: if `p` matches `t`, then `p*` matches
/// `t` followed by anything, `*p` matches anything followed by `t`, and `*p*`
/// matches `t` with anything on both sides.
pub proof fn lemma_glob_monotone(p: Seq<char>, t: Seq<char>, a: Seq<char>, b: Seq<char>)
    requires
        wildcard_match(p, t),
    ensures
        wildcard_match(p.push('*'), t + b),
        wildcard_match(seq!['*'] + p, a + t),
        wildcard_match(seq!['*'] + p.push('*'), a + t + b),
{
    lemma_extend_with_star(p, t, b, 0, 0);
    lemma_shift_after_star(p, t, a, 0, 0);
    lemma_star(seq!['*'] + p, a + t, 0, 0);
    assert(wild(seq!['*'] + p, a + t, 1, a.len() as int));
    let p2 = p.push('*');
    let t2 = t + b;
    lemma_shift_after_star(p2, t2, a, 0, 0);
    lemma_star(seq!['*'] + p2, a + t2, 0, 0);
    assert(wild(seq!['*'] + p2, a + t2, 1, a.len() as int));
    assert(a + t2 =~= a + t + b);
}

proof fn lemma_wild_reflexive(q: Seq<char>, i: int)
    requires
        0 <= i <= q.len(),
    ensures
        wild(q, q, i, i),
    decreases q.len() - i,
{
    if i < q.len() {
        lemma_wild_reflexive(q, i + 1);
        if q[i] == '*' {
            assert(wild(q, q, i, i + 1));
        }
    }
}

/// Case folding of ASCII text changes letter case only: it keeps the length,
/// lowers each upper-case letter to the letter 32 code points up, and keeps
/// every other character (a `/` or a `*` included) where it was.
pub proof fn lemma_ascii_fold_keeps_text(s: Seq<char>)
    requires
        all_ascii(s),
    ensures
        case_fold(s).len() == s.len(),
        forall|i: int|
            0 <= i < s.len() ==> #[trigger] case_fold(s)[i] == (if 'A' <= s[i] <= 'Z' {
                ((s[i] as u32) + 32) as char
            } else {
                s[i]
            }),
{
}

/// A pattern that is a prefix followed by a star matches every text that
/// starts with that prefix, the prefix alone included: for ASCII `p` and
/// `t`, `p*` matches `p` followed by `t` (whatever the letter case of `p`,
/// since both sides are folded alike), and it matches `p` itself.
pub proof fn lemma_prefix_star_matches_extensions(p: Seq<char>, t: Seq<char>)
    requires
        all_ascii(p),
        all_ascii(t),
    ensures
        glob_matches(p.push('*'), p + t),
        glob_matches(p.push('*'), p),
{
    let q = ascii_lower(p);
    let u = ascii_lower(t);
    let e = Seq::<char>::empty();
    assert(all_ascii(p.push('*'))) by {
        assert forall|i: int| 0 <= i < p.push('*').len() implies p.push('*')[i] < '\u{80}' by {
            if i < p.len() {
                assert(p.push('*')[i] == p[i]);
            }
        }
    }
    assert(all_ascii(p + t)) by {
        assert forall|i: int| 0 <= i < (p + t).len() implies (p + t)[i] < '\u{80}' by {
            if i < p.len() {
                assert((p + t)[i] == p[i]);
            } else {
                assert((p + t)[i] == t[i - p.len()]);
            }
        }
    }
    assert(ascii_lower(p.push('*')) =~= q.push('*'));
    assert(ascii_lower(p + t) =~= q + u);
    lemma_wild_reflexive(q, 0);
    lemma_glob_monotone(q, q, e, u);
    lemma_glob_monotone(q, q, e, e);
    assert(q + e =~= q);
}

/// A recorded star position as a mathematical integer.
pub open spec fn as_position(o: Option<usize>) -> Option<int> {
    match o {
        Some(s) => Some(s as int),
        None => None,
    }
}

/// Glob matching on already case-folded characters, by the scan of
/// [`glob_scan`]: exactly wildcard matching.
pub fn glob_match_folded(pattern: &[char], text: &[char]) -> (b: bool)
    ensures
        b == glob_folded(pattern@, text@),
        b == wildcard_match(pattern@, text@),
{
    proof {
        lemma_glob_is_wildcard_match(pattern@, text@);
    }
    let ghost p = pattern@;
    let ghost t = text@;
    let plen = pattern.len();
    let tlen = text.len();
    let mut pi: usize = 0;
    let mut ti: usize = 0;
    let mut star_index: Option<usize> = None;
    let mut star_text_index: usize = 0;
    while ti < tlen
        invariant
            plen == p.len(),
            tlen == t.len(),
            p == pattern@,
            t == text@,
            0 <= pi <= plen,
            0 <= star_text_index <= ti <= tlen,
            star_index matches Some(s) ==> s < plen,
            glob_scan(p, t, pi as int, ti as int, as_position(star_index), star_text_index as int)
                == glob_folded(p, t),
            glob_folded(p, t) == wildcard_match(p, t),
        decreases tlen - star_text_index, (tlen - ti) + (plen - pi),
    {
        if pi < plen && pattern[pi] == '*' {
            star_index = Some(pi);
            pi += 1;
            star_text_index = ti;
        } else if pi < plen && pattern[pi] == text[ti] {
            pi += 1;
            ti += 1;
        } else {
            match star_index {
                Some(star) => {
                    pi = star + 1;
                    star_text_index += 1;
                    ti = star_text_index;
                },
                None => {
                    return false;
                },
            }
        }
    }
    let ghost pi_at_end = pi;
    while pi < plen && pattern[pi] == '*'
        invariant
            plen == p.len(),
            p == pattern@,
            pi_at_end <= pi <= plen,
            forall|k: int| pi_at_end <= k < pi ==> p[k] == '*',
        decreases plen - pi,
    {
        pi += 1;
    }
    pi == plen
}

/// Whether the glob `pattern` matches `text`. Both are case-folded first (URLs
/// are effectively case-insensitive for preset routing); `*` is the only
/// wildcard ([`lemma_glob_is_wildcard_match`]).
pub fn glob_match(pattern: &str, text: &str) -> (b: bool)
    ensures
        b == glob_matches(pattern@, text@),
{
    let pv = fold_case(pattern);
    let tv = fold_case(text);
    glob_match_folded(pv.as_slice(), tv.as_slice())
}

fn is_all_ascii(v: &[char]) -> (b: bool)
    ensures
        b == all_ascii(v@),
{
    let mut i: usize = 0;
    while i < v.len()
        invariant
            i <= v@.len(),
            forall|k: int| 0 <= k < i ==> v@[k] < '\u{80}',
        decreases v@.len() - i,
    {
        if v[i] >= '\u{80}' {
            return false;
        }
        i += 1;
    }
    true
}

/// The characters of `s`, case-folded as the matcher does it.
fn fold_case(s: &str) -> (r: Vec<char>)
    ensures
        r@ == case_fold(s@),
{
    let v = chars_of(s);
    if is_all_ascii(v.as_slice()) {
        lower_ascii(v.as_slice())
    } else {
        let lowered = to_lowercase(s);
        chars_of(lowered.as_str())
    }
}

// ---------------------------------------------------------------------------
// Preset lookup and command suggestion
// ---------------------------------------------------------------------------

/// Whether `preset`'s glob matches `url`.
pub open spec fn preset_matches(preset: UrlPreset, url: Seq<char>) -> bool {
    glob_matches(preset.pattern@, url)
}

/// `i` is the first preset whose glob matches `url`.
pub open spec fn is_first_match(presets: Seq<UrlPreset>, url: Seq<char>, i: int) -> bool {
    &&& 0 <= i < presets.len()
    &&& preset_matches(presets[i], url)
    &&& forall|j: int| 0 <= j < i ==> !preset_matches(#[trigger] presets[j], url)
}

impl PresetFile {
    /// The first preset whose glob matches `url` (first match wins), or
    /// `None` when no preset matches.
    pub fn match_url(&self, url: &str) -> (r: Option<&UrlPreset>)
        ensures
            match r {
                Some(p) => exists|i: int| is_first_match(self.presets@, url@, i) && *p == self.presets@[i],
                None => forall|i: int|
                    0 <= i < self.presets@.len() ==> !preset_matches(#[trigger] self.presets@[i], url@),
            },
    {
        let mut i: usize = 0;
        while i < self.presets.len()
            invariant
                i <= self.presets@.len(),
                forall|j: int| 0 <= j < i ==> !preset_matches(#[trigger] self.presets@[j], url@),
            decreases self.presets@.len() - i,
        {
            let preset = &self.presets[i];
            if glob_match(preset.pattern.as_str(), url) {
                assert(is_first_match(self.presets@, url@, i as int));
                return Some(preset);
            }
            i += 1;
        }
        None
    }

    /// The `check-url` decision for `url`: the first preset whose glob
    /// matches the URL's hostname (none when the URL does not parse or has no
    /// host), and whether the engine can service this URL, i.e. whether a
    /// route exists for it.
    pub fn check_url(&self, url: &str) -> (r: (Option<&UrlPreset>, bool))
        ensures
            r.1 == (spec_route(url@) is Some),
            match url_host(url@) {
                None => r.0 is None,
                Some(host) => match r.0 {
                    Some(p) => exists|i: int| is_first_match(self.presets@, host, i) && *p == self.presets@[i],
                    None => forall|i: int|
                        0 <= i < self.presets@.len() ==> !preset_matches(#[trigger] self.presets@[i], host),
                },
            },
    {
        let engine_ready = can_route(url);
        let matched = match parse_url(url) {
            Ok(parts) => match &parts.host {
                Some(host) => self.match_url(host.as_str()),
                None => None,
            },
            Err(_) => None,
        };
        (matched, engine_ready)
    }
}

/// The host a URL is matched by in `check-url`: the host the URL parser
/// gives, if the URL parses and has one.
pub open spec fn url_host(url: Seq<char>) -> Option<Seq<char>> {
    match url_parse(url) {
        Ok(parts) => parts.1,
        Err(_) => None,
    }
}

/// One character of a double-quoted shell word: backslashes and double quotes
/// are escaped with a backslash.
pub open spec fn quote_char(c: char) -> Seq<char> {
    if c == '\\' {
        seq!['\\', '\\']
    } else if c == '"' {
        seq!['\\', '"']
    } else {
        seq![c]
    }
}

/// The escaped body of a double-quoted shell word.
pub open spec fn escaped(s: Seq<char>) -> Seq<char>
    decreases s.len(),
{
    if s.len() == 0 {
        Seq::empty()
    } else {
        escaped(s.drop_last()) + quote_char(s.last())
    }
}

/// `s` as a double-quoted shell word.
pub open spec fn shell_quoted(s: Seq<char>) -> Seq<char> {
    seq!['"'] + escaped(s) + seq!['"']
}

/// ` --selector "<sel>"` for each selector, in order.
pub open spec fn selector_flags(sels: Seq<Seq<char>>) -> Seq<char>
    decreases sels.len(),
{
    if sels.len() == 0 {
        Seq::empty()
    } else {
        selector_flags(sels.drop_last()) + " --selector "@ + shell_quoted(sels.last())
    }
}

/// ` --device <d>` unless the device is absent or `auto`.
pub open spec fn device_flag(device: Option<String>) -> Seq<char> {
    match device {
        Some(d) => if d@ == "auto"@ {
            Seq::empty()
        } else {
            " --device "@ + d@
        },
        None => Seq::empty(),
    }
}

/// The runnable command suggested for `url` by a preset.
pub open spec fn suggested(preset: UrlPreset, url: Seq<char>) -> Seq<char> {
    "adaptive-fetch "@ + shell_quoted(url) + device_flag(preset.device)
        + selector_flags(preset.selectors@.map_values(|s: String| s@))
}

/// Reading a quoted body back: a backslash escapes the character after it.
pub open spec fn unescaped(s: Seq<char>) -> Seq<char>
    decreases s.len(),
{
    if s.len() == 0 {
        Seq::empty()
    } else if s[0] == '\\' && s.len() >= 2 {
        seq![s[1]] + unescaped(s.subrange(2, s.len() as int))
    } else {
        seq![s[0]] + unescaped(s.drop_first())
    }
}

proof fn lemma_escaped_push(s: Seq<char>, c: char)
    ensures
        escaped(s.push(c)) == escaped(s) + quote_char(c),
{
    assert(s.push(c).drop_last() =~= s);
}

proof fn lemma_unescaped_concat(a: Seq<char>, c: char)
    ensures
        unescaped(escaped(a) + quote_char(c)) == unescaped(escaped(a)) + seq![c],
    decreases a.len(),
{
    if a.len() == 0 {
        assert(escaped(a) + quote_char(c) =~= quote_char(c));
        if c == '\\' || c == '"' {
            assert(quote_char(c).subrange(2, 2) =~= Seq::<char>::empty());
        } else {
            assert(quote_char(c).drop_first() =~= Seq::<char>::empty());
        }
        assert(unescaped(Seq::<char>::empty()) =~= Seq::<char>::empty());
    } else {
        let first = a[0];
        let rest = a.drop_first();
        lemma_escaped_first(a);
        lemma_unescaped_concat(rest, c);
        let q = quote_char(first);
        assert(escaped(a) + quote_char(c) =~= q + (escaped(rest) + quote_char(c)));
        lemma_unescaped_prefix(first, escaped(rest) + quote_char(c));
        lemma_unescaped_prefix(first, escaped(rest));
        assert(escaped(a) =~= q + escaped(rest));
    }
}

/// `escaped` distributes over a split after the first character.
proof fn lemma_escaped_first(a: Seq<char>)
    requires
        a.len() > 0,
    ensures
        escaped(a) == quote_char(a[0]) + escaped(a.drop_first()),
    decreases a.len(),
{
    if a.len() == 1 {
        assert(a.drop_last() =~= Seq::<char>::empty());
        assert(a.drop_first() =~= Seq::<char>::empty());
        assert(escaped(a) =~= quote_char(a[0]));
    } else {
        let init = a.drop_last();
        lemma_escaped_first(init);
        assert(init.drop_first() =~= a.drop_first().drop_last());
        assert(a.drop_first().last() == a.last());
        assert(escaped(a) =~= quote_char(a[0]) + escaped(a.drop_first()));
    }
}

/// Unescaping a quoted character followed by anything reads that character
/// back first.
proof fn lemma_unescaped_prefix(c: char, rest: Seq<char>)
    ensures
        unescaped(quote_char(c) + rest) == seq![c] + unescaped(rest),
{
    let s = quote_char(c) + rest;
    if c == '\\' || c == '"' {
        assert(s[0] == '\\' && s[1] == c);
        assert(s.subrange(2, s.len() as int) =~= rest);
    } else {
        assert(s[0] == c);
        assert(s.drop_first() =~= rest);
    }
}

/// Quoting is lossless: unescaping the quoted body of any text gives the text
/// back, so a suggested command carries the URL and selectors unchanged.
pub proof fn lemma_quote_roundtrip(s: Seq<char>)
    ensures
        unescaped(escaped(s)) == s,
    decreases s.len(),
{
    if s.len() == 0 {
        assert(unescaped(escaped(s)) =~= s);
    } else {
        let init = s.drop_last();
        lemma_quote_roundtrip(init);
        lemma_unescaped_concat(init, s.last());
        assert(init.push(s.last()) =~= s);
        lemma_escaped_push(init, s.last());
        assert(unescaped(escaped(init)) + seq![s.last()] =~= s);
    }
}

/// The device hint reaches the command: for a preset with a device `d` other
/// than `auto`, the suggested command is the quoted URL, then
/// ` --device <d>`, then the selectors; with no device, or `auto`, it is the
/// quoted URL followed directly by the selectors.
pub proof fn lemma_device_hint_in_command(preset: UrlPreset, url: Seq<char>)
    ensures
        ({
            let head = "adaptive-fetch "@ + shell_quoted(url);
            let sels = selector_flags(preset.selectors@.map_values(|s: String| s@));
            match preset.device {
                Some(d) => if d@ != "auto"@ {
                    suggested(preset, url) == head + " --device "@ + d@ + sels
                } else {
                    suggested(preset, url) == head + sels
                },
                None => suggested(preset, url) == head + sels,
            }
        }),
{
    let head = "adaptive-fetch "@ + shell_quoted(url);
    let sels = selector_flags(preset.selectors@.map_values(|s: String| s@));
    match preset.device {
        Some(d) => {
            if d@ != "auto"@ {
                assert(head + (" --device "@ + d@) + sels =~= head + " --device "@ + d@ + sels);
            } else {
                assert(head + Seq::<char>::empty() + sels =~= head + sels);
            }
        },
        None => {
            assert(head + Seq::<char>::empty() + sels =~= head + sels);
        },
    }
}

/// Whether a quoted body is well escaped: read from the left, every
/// backslash starts a two-character escape, and no double quote stands
/// outside one (so the body cannot close the quoted word early).
pub open spec fn well_escaped(s: Seq<char>) -> bool
    decreases s.len(),
{
    if s.len() == 0 {
        true
    } else if s[0] == '\\' {
        s.len() >= 2 && well_escaped(s.subrange(2, s.len() as int))
    } else {
        s[0] != '"' && well_escaped(s.drop_first())
    }
}

proof fn lemma_well_escaped_concat(x: Seq<char>, y: Seq<char>)
    requires
        well_escaped(x),
        well_escaped(y),
    ensures
        well_escaped(x + y),
    decreases x.len(),
{
    if x.len() == 0 {
        assert(x + y =~= y);
    } else if x[0] == '\\' {
        let rest = x.subrange(2, x.len() as int);
        lemma_well_escaped_concat(rest, y);
        assert((x + y).subrange(2, (x + y).len() as int) =~= rest + y);
    } else {
        lemma_well_escaped_concat(x.drop_first(), y);
        assert((x + y).drop_first() =~= x.drop_first() + y);
    }
}

proof fn lemma_quote_char_well_escaped(c: char)
    ensures
        well_escaped(quote_char(c)),
{
    let q = quote_char(c);
    let e = Seq::<char>::empty();
    assert(well_escaped(e));
    if c == '\\' || c == '"' {
        assert(q.len() == 2 && q[0] == '\\');
        assert(q.subrange(2, 2) =~= e);
    } else {
        assert(q.len() == 1 && q[0] == c);
        assert(q.drop_first() =~= e);
    }
}

/// Quoting leaves no double quote unescaped: the body of every quoted word is
/// well escaped, so the word ends at its closing quote and nowhere before.
pub proof fn lemma_quoted_body_well_escaped(s: Seq<char>)
    ensures
        well_escaped(escaped(s)),
    decreases s.len(),
{
    if s.len() > 0 {
        lemma_quoted_body_well_escaped(s.drop_last());
        lemma_quote_char_well_escaped(s.last());
        lemma_well_escaped_concat(escaped(s.drop_last()), quote_char(s.last()));
    }
}

/// Appends `value` as a double-quoted shell word.
fn push_shell_quoted(out: &mut String, value: &str)
    ensures
        final(out)@ == old(out)@ + shell_quoted(value@),
{
    let v = chars_of(value);
    push_char(out, '"');
    let ghost start = out@;
    let mut i: usize = 0;
    while i < v.len()
        invariant
            i <= v@.len(),
            v@ == value@,
            out@ == start + escaped(v@.take(i as int)),
        decreases v@.len() - i,
    {
        let c = v[i];
        if c == '\\' {
            push_char(out, '\\');
            push_char(out, '\\');
        } else if c == '"' {
            push_char(out, '\\');
            push_char(out, '"');
        } else {
            push_char(out, c);
        }
        proof {
            assert(v@.take(i + 1).drop_last() =~= v@.take(i as int));
            assert(out@ =~= start + escaped(v@.take(i + 1)));
        }
        i += 1;
    }
    assert(v@.take(v@.len() as int) =~= v@);
    push_char(out, '"');
    assert(final(out)@ =~= old(out)@ + shell_quoted(value@));
}

/// `value` as a double-quoted shell word (backslashes and quotes escaped).
pub fn shell_quote(value: &str) -> (r: String)
    ensures
        r@ == shell_quoted(value@),
{
    let mut r = String::new();
    push_shell_quoted(&mut r, value);
    assert(r@ =~= shell_quoted(value@));
    r
}

impl UrlPreset {
    /// A runnable `adaptive-fetch` command for `url`: the quoted URL, then
    /// `--device <d>` unless the device is absent or `auto`, then one quoted
    /// `--selector` per selector, in order.
    pub fn suggested_command(&self, url: &str) -> (r: String)
        ensures
            r@ == suggested(*self, url@),
    {
        let mut command = String::from_str("adaptive-fetch ");
        push_shell_quoted(&mut command, url);
        let ghost head = command@;
        match &self.device {
            Some(device) => {
                let dv = chars_of(device.as_str());
                let auto = chars_of("auto");
                if !chars_eq(dv.as_slice(), auto.as_slice()) {
                    push_str(&mut command, " --device ");
                    push_str(&mut command, device.as_str());
                }
            },
            None => {},
        }
        let ghost dev = self.device;
        assert(command@ == head + device_flag(dev));
        let ghost sels = self.selectors@.map_values(|s: String| s@);
        let mut i: usize = 0;
        while i < self.selectors.len()
            invariant
                i <= self.selectors@.len(),
                sels == self.selectors@.map_values(|s: String| s@),
                command@ == head + device_flag(dev) + selector_flags(sels.take(i as int)),
            decreases self.selectors@.len() - i,
        {
            push_str(&mut command, " --selector ");
            push_shell_quoted(&mut command, self.selectors[i].as_str());
            proof {
                assert(sels.take(i + 1).drop_last() =~= sels.take(i as int));
                assert(sels.take(i + 1).last() == self.selectors@[i as int]@);
                assert(command@ =~= head + device_flag(dev) + selector_flags(sels.take(i + 1)));
            }
            i += 1;
        }
        assert(sels.take(sels.len() as int) =~= sels);
        assert(command@ =~= suggested(*self, url@));
        command
    }
}

} // verus!
