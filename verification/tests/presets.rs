use adaptive_fetch::presets::glob_match_folded;
use adaptive_fetch::presets::{glob_match, shell_quote};
use adaptive_fetch::{PresetFile, UrlPreset};

fn preset(pattern: &str, reason: &str) -> UrlPreset {
    UrlPreset {
        pattern: pattern.to_string(),
        reason: Some(reason.to_string()),
        device: None,
        selectors: Vec::new(),
        impersonate_first: None,
        referer_strategy: None,
    }
}

#[test]
fn glob_matching_supports_only_star_wildcards() {
    assert!(glob_match("*suffix", "prefix-suffix"));
    assert!(glob_match("prefix*", "prefix-suffix"));
    assert!(glob_match("prefix*suffix", "prefix-middle-suffix"));
    assert!(glob_match("*one*two*", "zero-one-middle-two-end"));
    assert!(glob_match("literal", "literal"));
    assert!(!glob_match("prefix*suffix", "prefix-middle"));
}

#[test]
fn glob_matching_is_case_insensitive() {
    assert!(glob_match("SCHEME://HOST/*", "scheme://host/Path"));
}

#[test]
fn match_url_returns_the_first_matching_preset() {
    let file = PresetFile {
        version: 1,
        presets: vec![preset("*target*", "first"), preset("*", "second")],
    };

    assert_eq!(
        file.match_url("scheme://target/path")
            .and_then(|matched| matched.reason.as_deref()),
        Some("first")
    );
}

#[test]
fn match_url_returns_none_without_a_match() {
    let file = PresetFile {
        version: 1,
        presets: vec![preset("prefix-*", "only")],
    };

    assert!(file.match_url("other-value").is_none());
}

#[test]
fn suggested_command_omits_auto_device_and_quotes_url() {
    let mut value = preset("*", "reason");
    value.device = Some("auto".to_string());

    assert_eq!(
        value.suggested_command("scheme://host/path"),
        "adaptive-fetch \"scheme://host/path\""
    );
}

#[test]
fn suggested_command_includes_device_and_repeated_selectors() {
    let mut value = preset("*", "reason");
    value.device = Some("desktop".to_string());
    value.selectors = vec!["main".to_string(), "article.body".to_string()];

    assert_eq!(
        value.suggested_command("scheme://host/path"),
        "adaptive-fetch \"scheme://host/path\" --device desktop --selector \"main\" --selector \"article.body\""
    );
}

#[test]
fn suggested_command_escapes_quotes_and_backslashes() {
    let mut value = preset("*", "reason");
    value.selectors = vec![r#"[data-label="quoted"]\path"#.to_string()];

    assert_eq!(
        value.suggested_command(r#"scheme://host/"quoted"\path"#),
        r#"adaptive-fetch "scheme://host/\"quoted\"\\path" --selector "[data-label=\"quoted\"]\\path""#
    );
}

#[test]
fn glob_star_matches_empty_and_any_run() {
    assert!(glob_match("*", ""));
    assert!(glob_match("a*", "a"));
    assert!(glob_match("**", "anything"));
    assert!(!glob_match("", "x"));
    assert!(!glob_match("a*b", "ab-c"));
    assert!(glob_match("a*b*c", "a-b-b-c"));
}

#[test]
fn a_star_in_the_text_is_an_ordinary_character() {
    assert!(glob_match("*a", "*ba"));
    assert!(glob_match("*a", "xba"));
    assert!(glob_match("a*", "a*"));
    assert!(!glob_match("a", "*"));
}

#[test]
fn glob_folds_unicode_case() {
    assert!(glob_match("ÉCOLE*", "école/page"));
}

#[test]
fn quoting_plain_and_special_text() {
    assert_eq!(shell_quote("plain"), "\"plain\"");
    assert_eq!(shell_quote(""), "\"\"");
    assert_eq!(shell_quote("a\\b\"c"), "\"a\\\\b\\\"c\"");
}

#[test]
fn suggested_command_without_device_or_selectors() {
    let value = preset("*", "reason");
    assert_eq!(value.suggested_command("u"), "adaptive-fetch \"u\"");
}

#[test]
fn folded_matching_on_characters() {
    let c = |s: &str| s.chars().collect::<Vec<char>>();
    assert!(glob_match_folded(&c("a*c"), &c("abbc")));
    // no case folding at this level
    assert!(!glob_match_folded(&c("A*"), &c("abc")));
}

#[test]
fn check_url_matches_the_hostname_and_reports_the_route() {
    let file = PresetFile {
        version: 1,
        presets: vec![preset("*.reddit.com", "reddit"), preset("example.*", "example")],
    };
    let (matched, ready) = file.check_url("https://www.reddit.com/r/rust");
    assert_eq!(matched.and_then(|p| p.reason.as_deref()), Some("reddit"));
    assert!(ready);

    // host-scoped: a glob does not reach into the path, and a bare origin matches
    let (matched, ready) = file.check_url("https://example.org");
    assert_eq!(matched.and_then(|p| p.reason.as_deref()), Some("example"));
    assert!(!ready);
    let (matched, _) = file.check_url("https://other.net/www.reddit.com");
    assert!(matched.is_none());

    // the host is compared as the URL parser gives it (lower-cased)
    let (matched, _) = file.check_url("https://OLD.Reddit.COM/r/x");
    assert_eq!(matched.and_then(|p| p.reason.as_deref()), Some("reddit"));
}

#[test]
fn check_url_without_a_host_matches_nothing() {
    let file = PresetFile {
        version: 1,
        presets: vec![preset("*", "any")],
    };
    let (matched, ready) = file.check_url("not a url");
    assert!(matched.is_none());
    assert!(!ready);
    assert!(file.check_url("mailto:someone@example.com").0.is_none());
    assert!(file.check_url("https://host.example/").0.is_some());
}

#[test]
fn a_match_survives_stars_around_it() {
    let chars = |s: &str| s.chars().collect::<Vec<char>>();
    assert!(glob_match_folded(&chars("b*d"), &chars("bcd")));
    assert!(glob_match_folded(&chars("*b*d*"), &chars("xxbcdyy")));
    assert!(glob_match_folded(&chars("b*d*"), &chars("bcdyy")));
    assert!(glob_match_folded(&chars("*b*d"), &chars("xxbcd")));
    assert!(!glob_match_folded(&chars("b*d"), &chars("xxbcd")));
}

#[test]
fn quoted_words_close_only_at_the_end() {
    let q = shell_quote(r#"a"b\"c"#);
    assert_eq!(q, r#""a\"b\\\"c""#);
    let body: Vec<char> = q[1..q.len() - 1].chars().collect();
    let mut i = 0;
    while i < body.len() {
        if body[i] == '\\' {
            assert!(i + 1 < body.len());
            i += 2;
        } else {
            assert_ne!(body[i], '"');
            i += 1;
        }
    }
}
