use adaptive_fetch::phase0::platform_of_host;
use adaptive_fetch::phase0::feed_path_for;
use adaptive_fetch::phase0::{can_route, detect, route, Platform};

#[test]
fn detects_reddit_apex_and_subdomains() {
    assert_eq!(detect("https://reddit.com/r/rust"), Some(Platform::Reddit));
    assert_eq!(
        detect("https://www.reddit.com/r/rust"),
        Some(Platform::Reddit)
    );
    assert_eq!(
        detect("https://old.reddit.com/r/rust"),
        Some(Platform::Reddit)
    );
    // trailing DNS root dot resolves to the same host
    assert_eq!(detect("https://reddit.com./r/rust"), Some(Platform::Reddit));
}

#[test]
fn does_not_match_lookalike_hosts() {
    assert_eq!(detect("https://notreddit.com/r/rust"), None);
    assert_eq!(detect("https://reddit.com.evil.com/r/rust"), None);
    assert_eq!(detect("https://example.com/path/reddit.com/x"), None);
}

#[test]
fn reddit_route_appends_rss_and_normalizes_apex() {
    let r = route("https://reddit.com/r/rust").expect("reddit route");
    assert_eq!(r.name, "reddit:rss");
    assert_eq!(r.url, "https://www.reddit.com/r/rust/.rss");
}

#[test]
fn reddit_route_preserves_subdomain_and_query() {
    let r = route("https://old.reddit.com/r/rust?sort=new").expect("reddit route");
    assert_eq!(r.url, "https://old.reddit.com/r/rust/.rss?sort=new");
}

#[test]
fn reddit_route_frontpage_and_already_rss() {
    assert_eq!(
        route("https://www.reddit.com/").unwrap().url,
        "https://www.reddit.com/.rss"
    );
    // an already-.rss URL is left intact (no double suffix)
    assert_eq!(
        route("https://www.reddit.com/r/rust/.rss").unwrap().url,
        "https://www.reddit.com/r/rust/.rss"
    );
}

#[test]
fn can_route_reflects_recognition() {
    assert!(can_route("https://www.reddit.com/r/rust"));
    assert!(!can_route("https://example.com/"));
}

#[test]
fn reddit_route_drops_fragment_and_trailing_slashes() {
    let r = route("https://www.reddit.com/r/rust///#top").expect("reddit route");
    assert_eq!(r.url, "https://www.reddit.com/r/rust/.rss");
    assert_eq!(r.platform, Platform::Reddit);
}

#[test]
fn host_case_is_ignored() {
    assert_eq!(detect("https://WWW.Reddit.COM/r/rust"), Some(Platform::Reddit));
    let r = route("https://REDDIT.com/r/rust").expect("reddit route");
    assert_eq!(r.url, "https://www.reddit.com/r/rust/.rss");
}

#[test]
fn unparseable_or_hostless_urls_have_no_route() {
    assert_eq!(detect("not a url"), None);
    assert_eq!(detect("mailto:someone@reddit.com"), None);
    assert!(route("not a url").is_none());
}

#[test]
fn platform_of_plain_hosts() {
    assert_eq!(platform_of_host("reddit.com"), Some(Platform::Reddit));
    assert_eq!(platform_of_host("NP.Reddit.Com."), Some(Platform::Reddit));
    assert_eq!(platform_of_host("reddit.com.."), None);
    assert_eq!(platform_of_host("xreddit.com"), None);
    assert_eq!(platform_of_host(""), None);
}

#[test]
fn feed_paths() {
    assert_eq!(feed_path_for("/r/rust"), Some("/r/rust/.rss".to_string()));
    assert_eq!(feed_path_for("/r/rust//"), Some("/r/rust/.rss".to_string()));
    assert_eq!(feed_path_for("/"), Some("/.rss".to_string()));
    assert_eq!(feed_path_for(""), Some("/.rss".to_string()));
    assert_eq!(feed_path_for("/r/rust/.rss"), None);
    assert_eq!(feed_path_for("/r/rust/.rss/"), None);
    assert_eq!(feed_path_for("/x.rss"), None);
}
