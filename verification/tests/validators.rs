use adaptive_fetch::validators::{is_feed, validate_feed};
use adaptive_fetch::Verdict;

#[test]
fn accepts_rss_and_atom_feeds() {
    let (v, _) = validate_feed(200, "<?xml version=\"1.0\"?><rss version=\"2.0\">…</rss>");
    assert_eq!(v, Verdict::WeakOk);
    let (v, _) = validate_feed(200, "<?xml version=\"1.0\"?><feed xmlns=\"…\">…</feed>");
    assert_eq!(v, Verdict::WeakOk);
}

#[test]
fn flags_challenge_interstitial_even_on_200() {
    let (v, reasons) = validate_feed(200, "<html><title>Just a moment...</title></html>");
    assert_eq!(v, Verdict::Challenge);
    assert!(reasons[0].contains("just a moment"));
}

#[test]
fn two_hundred_non_feed_is_not_success() {
    let (v, _) = validate_feed(200, "<html><body>totally normal page</body></html>");
    assert_eq!(v, Verdict::Challenge);
}

#[test]
fn html_containing_feed_substrings_is_not_a_feed() {
    let (v, _) = validate_feed(
        200,
        "<!doctype html><html><body><feedback>hi</feedback><feed>x</feed>\
         <pre>&lt;rss&gt;example&lt;/rss&gt;</pre></body></html>",
    );
    assert_eq!(v, Verdict::Challenge);
}

#[test]
fn accepts_feed_with_bom_declaration_and_comments() {
    let (v, _) = validate_feed(
        200,
        "\u{feff}<?xml version=\"1.0\"?>\n<!-- generated --><feed xmlns=\"…\">…</feed>",
    );
    assert_eq!(v, Verdict::WeakOk);
}

#[test]
fn accepts_namespace_qualified_roots() {
    let (v, _) = validate_feed(
        200,
        "<?xml version=\"1.0\"?><atom:feed xmlns:atom=\"http://www.w3.org/2005/Atom\"></atom:feed>",
    );
    assert_eq!(v, Verdict::WeakOk);
    let (v, _) = validate_feed(
        200,
        "<?xml version=\"1.0\"?><rdf:RDF xmlns=\"http://purl.org/rss/1.0/\"></rdf:RDF>",
    );
    assert_eq!(v, Verdict::WeakOk);
}

#[test]
fn maps_status_semantics() {
    assert_eq!(validate_feed(429, "").0, Verdict::RateLimited);
    assert_eq!(validate_feed(403, "").0, Verdict::Blocked);
    assert_eq!(validate_feed(404, "").0, Verdict::NotFound);
    assert_eq!(validate_feed(401, "").0, Verdict::AuthRequired);
}

#[test]
fn feed_detection_is_utf8_safe_on_long_multibyte_bodies() {
    let body = "가".repeat(5000);
    let (v, _) = validate_feed(200, &body);
    assert_eq!(v, Verdict::Challenge);
}

#[test]
fn status_reasons_render_the_code() {
    assert_eq!(validate_feed(429, "").1, vec!["http 429".to_string()]);
    assert_eq!(validate_feed(407, "x").1, vec!["http 407".to_string()]);
    assert_eq!(validate_feed(410, "").0, Verdict::NotFound);
    assert_eq!(validate_feed(503, "").1, vec!["http 503".to_string()]);
    assert_eq!(validate_feed(0, "").1, vec!["http 0".to_string()]);
    assert_eq!(validate_feed(0, "").0, Verdict::Unknown);
    assert_eq!(validate_feed(0, "<rss>").0, Verdict::Unknown);
    assert_eq!(validate_feed(302, "<rss>").0, Verdict::Blocked);
}

#[test]
fn body_reasons_name_what_was_found() {
    assert_eq!(
        validate_feed(200, "<rss/>").1,
        vec!["rss/atom feed".to_string()]
    );
    assert_eq!(
        validate_feed(204, "<p>x</p>").1,
        vec!["2xx but body is not an rss/atom feed".to_string()]
    );
    assert_eq!(
        validate_feed(200, "<rss>ATTENTION REQUIRED</rss>").1,
        vec!["challenge marker: attention required".to_string()]
    );
}

#[test]
fn markers_are_tried_in_order() {
    // both markers present: the earlier one in the list is reported
    let (v, r) = validate_feed(200, "cf-challenge ... just a moment");
    assert_eq!(v, Verdict::Challenge);
    assert_eq!(r, vec!["challenge marker: just a moment".to_string()]);
}

#[test]
fn only_the_first_4096_characters_are_inspected() {
    let mut body = "<rss>".to_string();
    body.push_str(&" ".repeat(4091));
    body.push_str("just a moment");
    assert_eq!(validate_feed(200, &body).0, Verdict::WeakOk);
    let mut body = "<rss>".to_string();
    body.push_str(&" ".repeat(4070));
    body.push_str("just a moment");
    assert_eq!(validate_feed(200, &body).0, Verdict::Challenge);
}

#[test]
fn root_element_edge_cases() {
    // unterminated declaration, comment and doctype
    assert_eq!(validate_feed(200, "<?xml version").0, Verdict::Challenge);
    assert_eq!(validate_feed(200, "<!-- never closed <rss>").0, Verdict::Challenge);
    assert_eq!(validate_feed(200, "<!doctype rss").0, Verdict::Challenge);
    // leading unicode white space before the root
    assert_eq!(validate_feed(200, "\u{3000}\n <RSS version=\"2.0\">").0, Verdict::WeakOk);
    // text before the root
    assert_eq!(validate_feed(200, "x<rss>").0, Verdict::Challenge);
    // root name ends at '/'
    assert_eq!(validate_feed(200, "<feed/>").0, Verdict::WeakOk);
    // local name after the last colon
    assert_eq!(validate_feed(200, "<a:b:rss>").0, Verdict::WeakOk);
    assert_eq!(validate_feed(200, "<rss:x>").0, Verdict::Challenge);
    // a '<' not followed by a name starts no element
    assert_eq!(validate_feed(200, "< rss>").0, Verdict::Challenge);
    assert_eq!(validate_feed(200, "<>").0, Verdict::Challenge);
    assert_eq!(validate_feed(200, "</rss>").0, Verdict::Challenge);
    assert_eq!(validate_feed(200, "<").0, Verdict::Challenge);
    // a byte-order mark is skipped only at the very start
    assert_eq!(validate_feed(200, " \u{feff}<rss>").0, Verdict::Challenge);
}

#[test]
fn feed_roots_by_local_name() {
    assert!(is_feed("<atom:feed>"));
    assert!(is_feed("<rdf:rdf>"));
    assert!(is_feed("<rss version=\"2.0\">"));
    assert!(!is_feed("<feedback>"));
    assert!(!is_feed("<!doctype html><html><feed>"));
    assert!(!is_feed(""));
    assert!(!is_feed("hello <rss>"));
}
