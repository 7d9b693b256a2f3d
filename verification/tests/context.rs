use servy::config::Config;
use servy::context::{AppContext, FetchError};

#[test]
fn test_redirects_url() {
    let config = Config::default_with_redirects("http://example.com");
    let context = AppContext::new(config);
    assert_eq!(context.redirects_url(), "http://example.com");
}

#[test]
fn test_refresh_redirects() {
    let config = Config::default_with_redirects("http://example.com");
    let mut context = AppContext::new(config);
    let body = "foo http://foo.bar\nbar http://bar.baz".to_string();

    let map = context.refresh_redirects(Ok(body)).unwrap();
    assert_eq!(map.len(), 2);
    assert_eq!(map.get("foo").unwrap(), "http://foo.bar");
    assert_eq!(map.get("bar").unwrap(), "http://bar.baz");

    let redirects = context.redirects();
    assert_eq!(redirects.len(), 2);
    assert_eq!(redirects.get("foo").unwrap(), "http://foo.bar");
}

#[test]
fn test_refresh_replaces_wholesale() {
    let mut context = AppContext::new(Config::default_with_redirects("http://example.com"));
    context
        .refresh_redirects(Ok("foo http://foo.bar\nbar http://bar.baz".to_string()))
        .unwrap();
    context
        .refresh_redirects(Ok("baz http://baz.qux".to_string()))
        .unwrap();
    let redirects = context.redirects();
    assert_eq!(redirects.len(), 1);
    assert!(redirects.get("foo").is_none());
    assert_eq!(redirects.get("baz").unwrap(), "http://baz.qux");
}

#[test]
fn test_failed_refresh_preserves_map() {
    let mut context = AppContext::new(Config::default_with_redirects("http://example.com"));
    context
        .refresh_redirects(Ok("foo http://foo.bar\nbar http://bar.baz".to_string()))
        .unwrap();

    let err = context
        .refresh_redirects(Err(FetchError { message: "connection refused".to_string() }))
        .unwrap_err();
    assert_eq!(err.message, "connection refused");

    // The previously cached map is completely unchanged.
    let redirects = context.redirects();
    assert_eq!(redirects.len(), 2);
    assert_eq!(redirects.get("foo").unwrap(), "http://foo.bar");
    assert_eq!(redirects.get("bar").unwrap(), "http://bar.baz");
}

#[test]
fn test_refresh_url_cachebust() {
    let context = AppContext::new(Config::default_with_redirects("http://example.com/redirects"));
    assert_eq!(
        context.refresh_url(1700000000),
        "http://example.com/redirects?cachebust=1700000000"
    );
    assert_eq!(context.refresh_url(0), "http://example.com/redirects?cachebust=0");
}
