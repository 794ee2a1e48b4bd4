use adaptive_fetch::transport::{body_take, RedirectWalk, ResponseStep, MAX_BODY_BYTES};

#[test]
fn a_plain_response_is_delivered() {
    let mut walk = RedirectWalk::new("https://example.org/feed");
    assert_eq!(walk.next_request(), Ok("https://example.org/feed".to_string()));
    assert_eq!(walk.on_response(200, None), ResponseStep::Deliver);
    assert_eq!(walk.hops, 0);
}

#[test]
fn redirects_are_joined_and_rechecked() {
    let mut walk = RedirectWalk::new("https://example.org/a/b");
    assert!(walk.next_request().is_ok());
    assert_eq!(walk.on_response(301, Some("../c")), ResponseStep::Follow);
    assert_eq!(walk.current, "https://example.org/c");
    assert_eq!(walk.hops, 1);
    assert_eq!(walk.on_response(302, Some("http://127.0.0.1/")), ResponseStep::Follow);
    assert_eq!(
        walk.next_request(),
        Err("blocked address: 127.0.0.1".to_string())
    );
}

#[test]
fn a_redirect_needs_a_location() {
    let mut walk = RedirectWalk::new("https://example.org/");
    assert_eq!(walk.on_response(307, None), ResponseStep::MissingLocation);
    assert_eq!(walk.current, "https://example.org/");
}

#[test]
fn redirect_errors_carry_the_parse_error() {
    let mut walk = RedirectWalk::new("not a url");
    assert!(matches!(walk.on_response(302, Some("/x")), ResponseStep::InvalidCurrent(_)));
    let mut walk = RedirectWalk::new("https://example.org/");
    assert!(matches!(
        walk.on_response(302, Some("http://[::1")),
        ResponseStep::InvalidTarget(_)
    ));
}

#[test]
fn the_walk_gives_up_after_ten_redirects() {
    let mut walk = RedirectWalk::new("https://example.org/0");
    for i in 1..=11 {
        assert!(walk.next_request().is_ok());
        assert_eq!(
            walk.on_response(302, Some(&format!("/{i}"))),
            ResponseStep::Follow
        );
    }
    assert_eq!(
        walk.next_request(),
        Err("too many redirects (> 10)".to_string())
    );
}

#[test]
fn body_is_capped() {
    assert_eq!(body_take(0, 100), 100);
    assert_eq!(body_take(MAX_BODY_BYTES - 10, 100), 10);
    assert_eq!(body_take(MAX_BODY_BYTES, 5), 0);
}
