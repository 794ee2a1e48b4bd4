//! Response validation for official feed endpoints.
//!
//! HTTP 200 is the start of inspection, not success: a feed response is judged
//! by its status, then by hard challenge markers near the top of the body, and
//! finally by the document's root element: only a real RSS / Atom / RDF root
//! counts as a feed.

use vstd::prelude::*;
use crate::result::Verdict;
use crate::text::{
    ascii_lower, chars_eq, decimal, find_from, lower_ascii, matches_at, occurs_at, owned,
    push_decimal, push_str, slice_chars,
};

verus! {

broadcast use vstd::string::group_string_axioms;

/// How many leading characters of a body are inspected.
pub const HEAD_CHARS: usize = 4096;

/// Hard WAF / challenge interstitial markers, in the order they are tried.
pub open spec fn challenge_markers() -> Seq<Seq<char>> {
    seq![
        "just a moment"@,
        "cf-challenge"@,
        "sec-if-cpt-container"@,
        "/cdn-cgi/challenge-platform"@,
        "attention required"@,
    ]
}

fn challenge_marker(i: usize) -> (m: &'static str)
    requires
        i < 5,
    ensures
        m@ == challenge_markers()[i as int],
{
    if i == 0 {
        "just a moment"
    } else if i == 1 {
        "cf-challenge"
    } else if i == 2 {
        "sec-if-cpt-container"
    } else if i == 3 {
        "/cdn-cgi/challenge-platform"
    } else {
        "attention required"
    }
}

// ---------------------------------------------------------------------------
// Specification of the judgement
// ---------------------------------------------------------------------------

/// The characters that have the Unicode `White_Space` property (what std's
/// `char::is_whitespace` tests).
pub open spec fn is_white_space(c: char) -> bool {
    ||| ('\u{9}' <= c && c <= '\u{d}')
    ||| c == ' '
    ||| c == '\u{85}'
    ||| c == '\u{a0}'
    ||| c == '\u{1680}'
    ||| ('\u{2000}' <= c && c <= '\u{200a}')
    ||| c == '\u{2028}'
    ||| c == '\u{2029}'
    ||| c == '\u{202f}'
    ||| c == '\u{205f}'
    ||| c == '\u{3000}'
}

/// The inspected window: the first [`HEAD_CHARS`] characters of the body.
pub open spec fn head_of(body: Seq<char>) -> Seq<char> {
    if body.len() <= HEAD_CHARS {
        body
    } else {
        body.take(HEAD_CHARS as int)
    }
}

/// The first position at or after `from` where `needle` occurs in `s`.
pub open spec fn first_from(s: Seq<char>, needle: Seq<char>, from: int) -> Option<int>
    decreases s.len() + 1 - from,
    when 0 <= from
{
    if from > s.len() {
        None
    } else if occurs_at(s, needle, from) {
        Some(from)
    } else {
        first_from(s, needle, from + 1)
    }
}

/// Skips white space from position `i`.
pub open spec fn skip_white(s: Seq<char>, i: int) -> int
    decreases s.len() - i,
    when 0 <= i <= s.len()
{
    if i < s.len() && is_white_space(s[i]) {
        skip_white(s, i + 1)
    } else {
        i
    }
}

/// The end of an element name starting at `i`: the first white space, `>` or
/// `/`, or the end of the text.
pub open spec fn name_end(s: Seq<char>, i: int) -> int
    decreases s.len() - i,
    when 0 <= i <= s.len()
{
    if i >= s.len() || is_white_space(s[i]) || s[i] == '>' || s[i] == '/' {
        i
    } else {
        name_end(s, i + 1)
    }
}

pub proof fn lemma_skip_white_bounds(s: Seq<char>, i: int)
    requires
        0 <= i <= s.len(),
    ensures
        i <= skip_white(s, i) <= s.len(),
    decreases s.len() - i,
{
    if i < s.len() && is_white_space(s[i]) {
        lemma_skip_white_bounds(s, i + 1);
    }
}

pub proof fn lemma_name_end_bounds(s: Seq<char>, i: int)
    requires
        0 <= i <= s.len(),
    ensures
        i <= name_end(s, i) <= s.len(),
    decreases s.len() - i,
{
    if !(i >= s.len() || is_white_space(s[i]) || s[i] == '>' || s[i] == '/') {
        lemma_name_end_bounds(s, i + 1);
    }
}

pub proof fn lemma_first_from_bounds(s: Seq<char>, needle: Seq<char>, from: int)
    requires
        0 <= from,
    ensures
        first_from(s, needle, from) matches Some(k) ==> from <= k && occurs_at(s, needle, k),
    decreases s.len() + 1 - from,
{
    if from <= s.len() && !occurs_at(s, needle, from) {
        lemma_first_from_bounds(s, needle, from + 1);
    }
}

/// The name of the first element of `s` from position `i`, skipping a leading
/// white-space run, `<?...?>` declarations and processing instructions,
/// `<!--...-->` comments and `<!...>` doctypes. `None` if the document does not
/// start with an element there, including a `<` not followed by a name.
pub open spec fn root_from(s: Seq<char>, i: int) -> Option<Seq<char>>
    decreases s.len() - i,
    when 0 <= i <= s.len()
{
    let j = skip_white(s, i);
    proof {
        lemma_skip_white_bounds(s, i);
        reveal_strlit("<");
    }
    if occurs_at(s, "<?"@, j) {
        proof {
            lemma_first_from_bounds(s, "?>"@, j + 2);
        }
        match first_from(s, "?>"@, j + 2) {
            Some(k) => if k + 2 <= s.len() { root_from(s, k + 2) } else { None },
            None => None,
        }
    } else if occurs_at(s, "<!--"@, j) {
        proof {
            lemma_first_from_bounds(s, "-->"@, j + 4);
        }
        match first_from(s, "-->"@, j + 4) {
            Some(k) => if k + 3 <= s.len() { root_from(s, k + 3) } else { None },
            None => None,
        }
    } else if occurs_at(s, "<!"@, j) {
        proof {
            lemma_first_from_bounds(s, ">"@, j + 2);
        }
        match first_from(s, ">"@, j + 2) {
            Some(k) => if k + 1 <= s.len() { root_from(s, k + 1) } else { None },
            None => None,
        }
    } else if occurs_at(s, "<"@, j) {
        proof {
            lemma_name_end_bounds(s, j + 1);
        }
        if name_end(s, j + 1) == j + 1 {
            None
        } else {
            Some(s.subrange(j + 1, name_end(s, j + 1)))
        }
    } else {
        None
    }
}

/// The root element name of a (lower-cased) document head, after an optional
/// byte-order mark.
pub open spec fn root_element(s: Seq<char>) -> Option<Seq<char>> {
    if s.len() > 0 && s[0] == '\u{feff}' {
        root_from(s, 1)
    } else {
        root_from(s, 0)
    }
}

/// The local part of a possibly namespace-qualified name: what follows its
/// last `:` (the whole name when it has none).
pub open spec fn local_name(name: Seq<char>) -> Seq<char>
    decreases name.len(),
{
    if name.len() == 0 {
        name
    } else if name.last() == ':' {
        Seq::empty()
    } else {
        local_name(name.drop_last()).push(name.last())
    }
}

/// Whether a lower-cased document head is an RSS / Atom / RDF feed, judged by
/// the local name of its root element.
pub open spec fn is_feed_head(lower: Seq<char>) -> bool {
    match root_element(lower) {
        Some(root) => {
            let local = local_name(root);
            local == "rss"@ || local == "feed"@ || local == "rdf"@
        },
        None => false,
    }
}

/// The first challenge marker (in list order) found in the lower-cased head.
pub open spec fn first_marker(lower: Seq<char>, from: int) -> Option<Seq<char>>
    decreases challenge_markers().len() - from,
    when 0 <= from
{
    if from >= challenge_markers().len() {
        None
    } else if crate::text::contains_seq(lower, challenge_markers()[from]) {
        Some(challenge_markers()[from])
    } else {
        first_marker(lower, from + 1)
    }
}

/// Whether `status` is a success status (2xx).
pub open spec fn is_2xx(status: u16) -> bool {
    200 <= status < 300
}

/// The verdict for a feed response.
pub open spec fn feed_verdict(status: u16, body: Seq<char>) -> Verdict {
    let lower = ascii_lower(head_of(body));
    if status == 429 {
        Verdict::RateLimited
    } else if status == 401 || status == 407 {
        Verdict::AuthRequired
    } else if status == 404 || status == 410 {
        Verdict::NotFound
    } else if status == 0 {
        Verdict::Unknown
    } else if !is_2xx(status) {
        Verdict::Blocked
    } else if first_marker(lower, 0) is Some {
        Verdict::Challenge
    } else if is_feed_head(lower) {
        Verdict::WeakOk
    } else {
        Verdict::Challenge
    }
}

/// The single reason recorded with the verdict.
pub open spec fn feed_reason(status: u16, body: Seq<char>) -> Seq<char> {
    let lower = ascii_lower(head_of(body));
    if status == 429 || status == 401 || status == 407 || status == 404 || status == 410
        || !is_2xx(status) {
        "http "@ + decimal(status as nat)
    } else {
        match first_marker(lower, 0) {
            Some(m) => "challenge marker: "@ + m,
            None => if is_feed_head(lower) {
                "rss/atom feed"@
            } else {
                "2xx but body is not an rss/atom feed"@
            },
        }
    }
}

// ---------------------------------------------------------------------------
// Laws
// ---------------------------------------------------------------------------

/// Only the inspected window matters: two bodies that agree on their first
/// [`HEAD_CHARS`] characters get the same verdict and reason.
pub proof fn lemma_only_head_matters(status: u16, a: Seq<char>, b: Seq<char>)
    requires
        head_of(a) == head_of(b),
    ensures
        feed_verdict(status, a) == feed_verdict(status, b),
        feed_reason(status, a) == feed_reason(status, b),
{
}

/// The judgement never claims more than the evidence gives: a feed response
/// is never a strong or suspect verdict, it is unknown exactly when there was
/// no HTTP response (status 0), and it is a success only for
/// a 2xx response whose head holds no challenge marker and whose root element
/// is a feed.
pub proof fn lemma_feed_success_needs_evidence(status: u16, body: Seq<char>)
    ensures
        feed_verdict(status, body) != Verdict::StrongOk,
        feed_verdict(status, body) != Verdict::SuspectOk,
        feed_verdict(status, body) == Verdict::Unknown <==> status == 0,
        feed_verdict(status, body).spec_is_ok() <==> {
            let lower = ascii_lower(head_of(body));
            &&& is_2xx(status)
            &&& first_marker(lower, 0) is None
            &&& is_feed_head(lower)
        },
        feed_verdict(status, body).spec_is_ok() ==> body.len() > 0,
{
    if body.len() == 0 {
        let lower = ascii_lower(head_of(body));
        assert(lower.len() == 0);
        reveal_strlit("<?");
        reveal_strlit("<!--");
        reveal_strlit("<!");
        reveal_strlit("<");
        assert(skip_white(lower, 0) == 0);
        assert(root_from(lower, 0) is None);
        assert(!is_feed_head(lower));
    }
}

proof fn lemma_skip_white_shift(p: Seq<char>, d: Seq<char>, i: int)
    requires
        0 <= i <= d.len(),
    ensures
        skip_white(p + d, p.len() + i) == p.len() + skip_white(d, i),
    decreases d.len() - i,
{
    let s = p + d;
    if i < d.len() {
        assert(s[p.len() + i] == d[i]);
        if is_white_space(d[i]) {
            lemma_skip_white_shift(p, d, i + 1);
        }
    }
}

proof fn lemma_name_end_shift(p: Seq<char>, d: Seq<char>, i: int)
    requires
        0 <= i <= d.len(),
    ensures
        name_end(p + d, p.len() + i) == p.len() + name_end(d, i),
    decreases d.len() - i,
{
    let s = p + d;
    if i < d.len() {
        assert(s[p.len() + i] == d[i]);
        if !(is_white_space(d[i]) || d[i] == '>' || d[i] == '/') {
            lemma_name_end_shift(p, d, i + 1);
        }
    }
}

proof fn lemma_occurs_shift(p: Seq<char>, d: Seq<char>, needle: Seq<char>, j: int)
    requires
        0 <= j,
    ensures
        occurs_at(p + d, needle, p.len() + j) == occurs_at(d, needle, j),
{
    let s = p + d;
    if j + needle.len() <= d.len() {
        assert(s.subrange(p.len() + j, p.len() + j + needle.len()) =~= d.subrange(
            j,
            j + needle.len(),
        ));
    }
}

proof fn lemma_first_from_shift(p: Seq<char>, d: Seq<char>, needle: Seq<char>, f: int)
    requires
        0 <= f,
    ensures
        first_from(p + d, needle, p.len() + f) == (match first_from(d, needle, f) {
            Some(k) => Some(k + p.len()),
            None => None,
        }),
    decreases d.len() + 1 - f,
{
    lemma_occurs_shift(p, d, needle, f);
    if f <= d.len() && !occurs_at(d, needle, f) {
        lemma_first_from_shift(p, d, needle, f + 1);
    }
}

/// Reading a document from a position gives the same root element whatever
/// text precedes that position.
proof fn lemma_root_from_shift(p: Seq<char>, d: Seq<char>, i: int)
    requires
        0 <= i <= d.len(),
    ensures
        root_from(p + d, p.len() + i) == root_from(d, i),
    decreases d.len() - i,
{
    let s = p + d;
    let o = p.len() as int;
    reveal_strlit("<?");
    reveal_strlit("?>");
    reveal_strlit("<!--");
    reveal_strlit("-->");
    reveal_strlit("<!");
    reveal_strlit(">");
    reveal_strlit("<");
    lemma_skip_white_shift(p, d, i);
    lemma_skip_white_bounds(d, i);
    let j = skip_white(d, i);
    lemma_occurs_shift(p, d, "<?"@, j);
    lemma_occurs_shift(p, d, "<!--"@, j);
    lemma_occurs_shift(p, d, "<!"@, j);
    lemma_occurs_shift(p, d, "<"@, j);
    lemma_first_from_shift(p, d, "?>"@, j + 2);
    lemma_first_from_shift(p, d, "-->"@, j + 4);
    lemma_first_from_shift(p, d, ">"@, j + 2);
    lemma_first_from_bounds(d, "?>"@, j + 2);
    lemma_first_from_bounds(d, "-->"@, j + 4);
    lemma_first_from_bounds(d, ">"@, j + 2);
    assert(o + j + 2 == (o + j) + 2);
    if occurs_at(d, "<?"@, j) {
        if let Some(k) = first_from(d, "?>"@, j + 2) {
            if k + 2 <= d.len() {
                lemma_root_from_shift(p, d, k + 2);
            }
        }
    } else if occurs_at(d, "<!--"@, j) {
        if let Some(k) = first_from(d, "-->"@, j + 4) {
            if k + 3 <= d.len() {
                lemma_root_from_shift(p, d, k + 3);
            }
        }
    } else if occurs_at(d, "<!"@, j) {
        if let Some(k) = first_from(d, ">"@, j + 2) {
            if k + 1 <= d.len() {
                lemma_root_from_shift(p, d, k + 1);
            }
        }
    } else if occurs_at(d, "<"@, j) {
        lemma_name_end_shift(p, d, j + 1);
        lemma_name_end_bounds(d, j + 1);
        let e = name_end(d, j + 1);
        assert(s.subrange(o + j + 1, o + e) =~= d.subrange(j + 1, e));
    }
}

/// The first `>` at or after `f` is at `e` when `e` holds one and nothing
/// between does.
proof fn lemma_first_close(s: Seq<char>, f: int, e: int)
    requires
        0 <= f <= e < s.len(),
        s[e] == '>',
        forall|m: int| f <= m < e ==> s[m] != '>',
    ensures
        first_from(s, ">"@, f) == Some(e),
    decreases e - f,
{
    reveal_strlit(">");
    assert(">"@.len() == 1 && ">"@[0] == '>');
    if f < e {
        assert(s.subrange(f, f + 1)[0] == s[f]);
        assert(!occurs_at(s, ">"@, f));
        lemma_first_close(s, f + 1, e);
    } else {
        assert(s.subrange(f, f + 1) =~= ">"@);
        assert(occurs_at(s, ">"@, f));
    }
}

/// A `<!...>` declaration (a doctype) before the root element does not change
/// the root element: for any declaration text `x` (no `>` in it, and not a
/// `<!--` comment) and any document `d` (without a byte-order mark),
/// `<!x>` followed by `d` has the root element of `d`. So a feed preceded by
/// a DOCTYPE is still a feed.
pub proof fn lemma_declaration_is_skipped(x: Seq<char>, d: Seq<char>)
    requires
        forall|m: int| 0 <= m < x.len() ==> x[m] != '>',
        !(x.len() >= 2 && x[0] == '-' && x[1] == '-'),
        !(d.len() > 0 && d[0] == '\u{feff}'),
    ensures
        root_element("<!"@ + x + ">"@ + d) == root_element(d),
{
    reveal_strlit("<?");
    reveal_strlit("<!--");
    reveal_strlit("<!");
    reveal_strlit(">");
    let p = "<!"@ + x + ">"@;
    let s = p + d;
    assert("<!"@ + x + ">"@ + d =~= s);
    let e = p.len() - 1;
    assert(s[0] == '<' && s[1] == '!');
    assert(s[e] == '>');
    assert(!is_white_space(s[0]));
    assert(skip_white(s, 0) == 0);
    assert(!occurs_at(s, "<?"@, 0)) by {
        assert(s.subrange(0, 2)[1] == '!');
    }
    assert(!occurs_at(s, "<!--"@, 0)) by {
        if occurs_at(s, "<!--"@, 0) {
            assert(s.subrange(0, 4)[2] == '-' && s.subrange(0, 4)[3] == '-');
            assert(s[2] == '-' && s[3] == '-');
            assert(x.len() >= 2);
            assert(x[0] == s[2] && x[1] == s[3]);
        }
    }
    assert(occurs_at(s, "<!"@, 0)) by {
        assert(s.subrange(0, 2) =~= "<!"@);
    }
    assert forall|m: int| 2 <= m < e implies s[m] != '>' by {
        assert(s[m] == x[m - 2]);
    }
    lemma_first_close(s, 2, e);
    lemma_root_from_shift(p, d, 0);
    assert(root_from(s, 0) == root_from(s, e + 1));
}

// ---------------------------------------------------------------------------
// Executable judgement
// ---------------------------------------------------------------------------

fn is_white(c: char) -> (b: bool)
    ensures
        b == is_white_space(c),
{
    ('\u{9}' <= c && c <= '\u{d}') || c == ' ' || c == '\u{85}' || c == '\u{a0}' || c
        == '\u{1680}' || ('\u{2000}' <= c && c <= '\u{200a}') || c == '\u{2028}' || c
        == '\u{2029}' || c == '\u{202f}' || c == '\u{205f}' || c == '\u{3000}'
}

/// The first `n` characters of `s` (all of them when it is shorter); only
/// those characters are decoded.
fn chars_prefix(s: &str, n: usize) -> (v: Vec<char>)
    ensures
        v@ == (if s@.len() <= n { s@ } else { s@.take(n as int) }),
{
    let mut v: Vec<char> = Vec::new();
    let mut it = s.chars();
    while v.len() < n
        invariant
            v@.len() <= n,
            v@ + vstd::std_specs::iter::IteratorSpec::remaining(&it) == s@,
            vstd::std_specs::iter::IteratorSpec::obeys_prophetic_iter_laws(&it),
            vstd::std_specs::iter::IteratorSpec::decrease(&it) is Some,
        decreases n - v@.len(),
    {
        let ghost before = vstd::std_specs::iter::IteratorSpec::remaining(&it);
        match it.next() {
            Some(c) => {
                v.push(c);
                assert(v@ + vstd::std_specs::iter::IteratorSpec::remaining(&it) =~= s@) by {
                    assert(before == seq![c] + vstd::std_specs::iter::IteratorSpec::remaining(
                        &it,
                    ));
                }
            },
            None => {
                assert(v@ =~= s@);
                return v;
            },
        }
    }
    assert(v@ =~= s@.take(n as int));
    v
}

pub(crate) fn find_str(s: &[char], needle: &str, from: usize) -> (r: Option<usize>)
    ensures
        from as int <= s@.len() ==> r == match first_from(s@, needle@, from as int) {
            Some(k) => Some(k as usize),
            None => None::<usize>,
        },
{
    let nv = crate::text::chars_of(needle);
    let r = find_from(s, nv.as_slice(), from);
    proof {
        if from as int <= s@.len() {
            lemma_first_from_matches(s@, needle@, from as int, r);
        }
    }
    r
}

proof fn lemma_first_from_matches(s: Seq<char>, needle: Seq<char>, from: int, r: Option<usize>)
    requires
        0 <= from,
        match r {
            Some(i) => from <= i && occurs_at(s, needle, i as int) && forall|j: int|
                from <= j < i ==> !occurs_at(s, needle, j),
            None => forall|j: int| from <= j ==> !occurs_at(s, needle, j),
        },
    ensures
        r == match first_from(s, needle, from) {
            Some(k) => Some(k as usize),
            None => None::<usize>,
        },
    decreases s.len() + 1 - from,
{
    if from > s.len() {
        match r {
            Some(i) => {
                assert(occurs_at(s, needle, i as int));
            },
            None => {},
        }
    } else if occurs_at(s, needle, from) {
        match r {
            Some(i) => {
                if (i as int) > from {
                    assert(!occurs_at(s, needle, from));
                }
            },
            None => {},
        }
    } else {
        lemma_first_from_matches(s, needle, from + 1, r);
    }
}

fn starts_at(s: &[char], lit: &str, i: usize) -> (b: bool)
    ensures
        b == occurs_at(s@, lit@, i as int),
{
    let lv = crate::text::chars_of(lit);
    matches_at(s, lv.as_slice(), i)
}

/// The root element name of a lower-cased document head.
fn root_element_exec(s: &[char]) -> (r: Option<Vec<char>>)
    ensures
        match r {
            Some(v) => root_element(s@) == Some(v@),
            None => root_element(s@) is None,
        },
{
    let n = s.len();
    let mut i: usize = if n > 0 && s[0] == '\u{feff}' {
        1
    } else {
        0
    };
    let ghost start = i as int;
    assert(root_element(s@) == root_from(s@, start));
    loop
        invariant
            n == s@.len(),
            i <= n,
            root_element(s@) == root_from(s@, i as int),
        decreases n - i,
    {
        let ghost gi = i as int;
        // skip white space
        let mut j = i;
        while j < n && is_white(s[j])
            invariant
                n == s@.len(),
                i <= j <= n,
                skip_white(s@, gi) == skip_white(s@, j as int),
            decreases n - j,
        {
            j += 1;
        }
        assert(skip_white(s@, j as int) == j);
        proof {
            lemma_skip_white_bounds(s@, gi);
        }
        proof {
            reveal_strlit("<?");
            reveal_strlit("?>");
            reveal_strlit("<!--");
            reveal_strlit("-->");
            reveal_strlit("<!");
            reveal_strlit(">");
            reveal_strlit("<");
            lemma_first_from_bounds(s@, "?>"@, j + 2);
            lemma_first_from_bounds(s@, "-->"@, j + 4);
            lemma_first_from_bounds(s@, ">"@, j + 2);
        }
        if starts_at(s, "<?", j) {
            let k = find_str(s, "?>", j + 2);
            match k {
                Some(k) => {
                    if k + 2 <= n {
                        i = k + 2;
                    } else {
                        return None;
                    }
                },
                None => {
                    return None;
                },
            }
        } else if starts_at(s, "<!--", j) {
            let k = find_str(s, "-->", j + 4);
            match k {
                Some(k) => {
                    if k + 3 <= n {
                        i = k + 3;
                    } else {
                        return None;
                    }
                },
                None => {
                    return None;
                },
            }
        } else if starts_at(s, "<!", j) {
            let k = find_str(s, ">", j + 2);
            match k {
                Some(k) => {
                    if k + 1 <= n {
                        i = k + 1;
                    } else {
                        return None;
                    }
                },
                None => {
                    return None;
                },
            }
        } else if starts_at(s, "<", j) {
            let mut e = j + 1;
            while e < n && !(is_white(s[e]) || s[e] == '>' || s[e] == '/')
                invariant
                    n == s@.len(),
                    j + 1 <= e <= n,
                    name_end(s@, j + 1) == name_end(s@, e as int),
                decreases n - e,
            {
                e += 1;
            }
            if e == j + 1 {
                return None;
            }
            return Some(slice_chars(s, j + 1, e));
        } else {
            return None;
        }
    }
}

/// The local part of a name: what follows its last `:`.
fn local_name_exec(name: &[char]) -> (r: Vec<char>)
    ensures
        r@ == local_name(name@),
{
    let n = name.len();
    let mut start: usize = n;
    while start > 0 && name[start - 1] != ':'
        invariant
            start <= n == name@.len(),
            forall|k: int| start <= k < n ==> name@[k] != ':',
        decreases start,
    {
        start -= 1;
    }
    let r = slice_chars(name, start, n);
    proof {
        lemma_local_name(name@, start as int);
    }
    r
}

proof fn lemma_local_name(name: Seq<char>, start: int)
    requires
        0 <= start <= name.len(),
        forall|k: int| start <= k < name.len() ==> name[k] != ':',
        start > 0 ==> name[start - 1] == ':',
    ensures
        local_name(name) == name.subrange(start, name.len() as int),
    decreases name.len(),
{
    if name.len() == 0 {
    } else if name.last() == ':' {
        assert(start == name.len());
    } else {
        lemma_local_name(name.drop_last(), start);
        assert(name.drop_last().subrange(start, name.len() - 1).push(name.last())
            =~= name.subrange(start, name.len() as int));
    }
}

fn is_lit(v: &[char], lit: &str) -> (b: bool)
    ensures
        b == (v@ == lit@),
{
    let lv = crate::text::chars_of(lit);
    chars_eq(v, lv.as_slice())
}

/// Whether the (lower-cased) head is a real RSS / Atom / RDF feed, decided by
/// the local name of the root element (what follows its last `:`), not by a
/// substring.
pub fn is_feed(lower_head: &str) -> (b: bool)
    ensures
        b == is_feed_head(lower_head@),
{
    let v = crate::text::chars_of(lower_head);
    is_feed_chars(v.as_slice())
}

fn is_feed_chars(lower: &[char]) -> (b: bool)
    ensures
        b == is_feed_head(lower@),
{
    match root_element_exec(lower) {
        Some(root) => {
            let local = local_name_exec(root.as_slice());
            is_lit(local.as_slice(), "rss") || is_lit(local.as_slice(), "feed") || is_lit(
                local.as_slice(),
                "rdf",
            )
        },
        None => false,
    }
}

fn http_reason(status: u16) -> (r: Vec<String>)
    ensures
        r@.len() == 1,
        r@[0]@ == "http "@ + decimal(status as nat),
{
    let mut s = owned("http ");
    push_decimal(&mut s, status as u64);
    vec![s]
}

/// Classify a feed response: the verdict and the reasons that produced it.
///
/// Status first: 429 is rate limiting (transient), 401/407 need
/// authentication, 404/410 are not found, 0 (no HTTP response) is unknown,
/// any other non-2xx is blocked. A 2xx
/// body is inspected on its first 4096 characters only: a challenge marker
/// makes it a challenge even on 200, a feed root element makes it a (weak)
/// success, and anything else is treated as a challenge, since a feed endpoint
/// did not return a feed.
pub fn validate_feed(status: u16, body: &str) -> (r: (Verdict, Vec<String>))
    ensures
        r.0 == feed_verdict(status, body@),
        r.1@.len() == 1,
        r.1@[0]@ == feed_reason(status, body@),
        status == 429 ==> r.0 == Verdict::RateLimited,
        status == 401 || status == 407 ==> r.0 == Verdict::AuthRequired,
        status == 404 || status == 410 ==> r.0 == Verdict::NotFound,
        status == 0 ==> r.0 == Verdict::Unknown,
        status != 0 && status != 429 && status != 401 && status != 407 && status != 404 && status
            != 410 && !is_2xx(status) ==> r.0 == Verdict::Blocked,
{
    if status == 429 {
        return (Verdict::RateLimited, http_reason(status));
    }
    if status == 401 || status == 407 {
        return (Verdict::AuthRequired, http_reason(status));
    }
    if status == 404 || status == 410 {
        return (Verdict::NotFound, http_reason(status));
    }
    if status == 0 {
        return (Verdict::Unknown, http_reason(status));
    }
    if !(200 <= status && status < 300) {
        return (Verdict::Blocked, http_reason(status));
    }
    let head = chars_prefix(body, HEAD_CHARS);
    let lower = lower_ascii(head.as_slice());
    let ghost lw = lower@;
    assert(lw == ascii_lower(head_of(body@)));
    let mut i: usize = 0;
    while i < 5
        invariant
            lw == lower@,
            lw == ascii_lower(head_of(body@)),
            200 <= status < 300,
            i <= 5,
            first_marker(lw, 0) == first_marker(lw, i as int),
        decreases 5 - i,
    {
        let marker = challenge_marker(i);
        let mv = crate::text::chars_of(marker);
        if crate::text::contains(lower.as_slice(), mv.as_slice()) {
            assert(first_marker(lw, i as int) == Some(challenge_markers()[i as int]));
            let mut reason = owned("challenge marker: ");
            push_str(&mut reason, marker);
            return (Verdict::Challenge, vec![reason]);
        }
        i += 1;
    }
    if is_feed_chars(lower.as_slice()) {
        return (Verdict::WeakOk, vec![owned("rss/atom feed")]);
    }
    (Verdict::Challenge, vec![owned("2xx but body is not an rss/atom feed")])
}

} // verus!
