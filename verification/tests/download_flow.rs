use git_tool::download::{Fetched, REDIRECT_LIMIT};
use git_tool::{Download, Error};

#[test]
fn download_follows_two_redirects_then_succeeds() {
    let mut download = Download::begin(String::from("https://example.com/artifact"));

    let first = download.next_request().unwrap();
    assert_eq!(first, "https://example.com/artifact");
    assert_eq!(
        download
            .on_response(
                302,
                Some(String::from("https://cdn.example.com/one")),
                String::new()
            )
            .unwrap(),
        Fetched::Redirected
    );

    let second = download.next_request().unwrap();
    assert_eq!(second, "https://cdn.example.com/one");
    assert_eq!(
        download
            .on_response(
                302,
                Some(String::from("https://cdn.example.com/two")),
                String::new()
            )
            .unwrap(),
        Fetched::Redirected
    );

    let third = download.next_request().unwrap();
    assert_eq!(third, "https://cdn.example.com/two");
    assert_eq!(
        download.on_response(200, None, String::new()).unwrap(),
        Fetched::Payload
    );
}

#[test]
fn download_six_redirects_is_a_redirect_loop() {
    let mut download = Download::begin(String::from("https://example.com/artifact"));

    for hop in 0..REDIRECT_LIMIT {
        download.next_request().unwrap();
        let next = format!("https://cdn.example.com/hop/{}", hop);
        assert_eq!(
            download.on_response(302, Some(next), String::new()).unwrap(),
            Fetched::Redirected
        );
    }

    match download.next_request() {
        Err(Error::RedirectLoop { location }) => {
            assert_eq!(
                location, "https://example.com/artifact",
                "the loop failure names the original location"
            );
        }
        other => panic!("expected a redirect loop, got {:?}", other),
    }
}

#[test]
fn download_rate_limit_is_user_actionable() {
    let mut download = Download::begin(String::from("https://example.com/artifact"));
    download.next_request().unwrap();
    match download.on_response(429, None, String::new()) {
        Err(Error::UserActionable { .. }) => {}
        other => panic!("a 429 must be user-actionable, got {:?}", other),
    }
}

#[test]
fn download_unexpected_status_keeps_body() {
    let mut download = Download::begin(String::from("https://example.com/artifact"));
    download.next_request().unwrap();
    match download.on_response(500, None, String::from("boom")) {
        Err(Error::Unavailable { status, body }) => {
            assert_eq!(status, 500);
            assert_eq!(body, "boom");
        }
        other => panic!("an unexpected status is unavailable, got {:?}", other),
    }
}

#[test]
fn download_redirect_without_location_is_internal() {
    let mut download = Download::begin(String::from("https://example.com/artifact"));
    download.next_request().unwrap();
    assert!(matches!(
        download.on_response(302, None, String::new()),
        Err(Error::Internal { .. })
    ));
}

#[test]
fn download_redirect_with_unusable_location_is_internal() {
    let mut download = Download::begin(String::from("https://example.com/artifact"));
    download.next_request().unwrap();
    assert!(matches!(
        download.on_response(
            301,
            Some(String::from("https://exa mple.com/has a space")),
            String::new()
        ),
        Err(Error::Internal { .. })
    ));
    assert_eq!(
        download.current, "https://example.com/artifact",
        "a refused redirect leaves the download where it was"
    );
}

#[test]
fn download_redirect_with_usable_location_moves_on() {
    let mut download = Download::begin(String::from("https://example.com/artifact"));
    download.next_request().unwrap();
    assert_eq!(
        download
            .on_response(
                301,
                Some(String::from("https://mirror.example.com/artifact")),
                String::new()
            )
            .unwrap(),
        Fetched::Redirected
    );
    assert_eq!(download.current, "https://mirror.example.com/artifact");
}
