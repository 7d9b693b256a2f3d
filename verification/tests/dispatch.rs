use servy::assets::AssetStore;
use servy::config::Config;
use servy::context::{AppContext, FetchError};
use servy::dispatch::{
    dispatch, dispatch_after_refresh, error_response, not_found_fallback, DispatchOutcome,
    DispatchStep, TransportFault,
};
use servy::metrics::{redirects_defined, redirects_served, requests_total, response_status};

const SOURCE_BODY: &str = "foo http://foo.bar\nbar http://bar.baz";

fn sample_store() -> AssetStore {
    let mut store = AssetStore::new();
    store.add(
        "index.html".to_string(),
        b"<body>Hello, World!</body>".to_vec(),
        "text/html".to_string(),
    );
    store.add(
        "404.html".to_string(),
        b"<body>Not Found</body>".to_vec(),
        "text/html".to_string(),
    );
    store
}

fn refreshed_context() -> AppContext {
    let mut context = AppContext::new(Config::default_with_redirects("http://example.com"));
    context.refresh_redirects(Ok(SOURCE_BODY.to_string())).unwrap();
    context
}

/// One request against the full chain, with the upstream body (or failure)
/// that a triggered refresh would fetch.
fn request(
    store: &AssetStore,
    context: &mut AppContext,
    path: &str,
    inm: Option<&str>,
    upstream: Result<String, FetchError>,
) -> DispatchOutcome {
    let redirects = context.redirects();
    match dispatch(store, &redirects, path, inm) {
        DispatchStep::Done(outcome) => outcome,
        DispatchStep::NeedsRefresh { key } => {
            dispatch_after_refresh(store, context, key.as_str(), inm, upstream)
        }
    }
}

fn fetch_failed() -> Result<String, FetchError> {
    Err(FetchError { message: "fetch failed".to_string() })
}

#[test]
fn test_known_redirect() {
    let store = sample_store();
    let mut context = refreshed_context();
    let outcome = request(&store, &mut context, "foo", None, fetch_failed());
    match outcome {
        DispatchOutcome::Redirected { alias, target } => {
            assert_eq!(alias, "foo");
            assert_eq!(target, "http://foo.bar");
        }
        _ => panic!("expected a redirect"),
    }
}

#[test]
fn test_known_redirect_trailing_slash() {
    let store = sample_store();
    let mut context = refreshed_context();
    let outcome = request(&store, &mut context, "foo/", None, fetch_failed());
    match outcome {
        DispatchOutcome::Redirected { alias, target } => {
            assert_eq!(alias, "foo");
            assert_eq!(target, "http://foo.bar");
        }
        _ => panic!("expected a redirect"),
    }
}

#[test]
fn test_unknown_redirect() {
    let store = sample_store();
    let mut context = refreshed_context();
    // The refresh triggered by the miss returns the same body; the alias is
    // still missing, so the bundled not-found page answers with status 404.
    let outcome = request(
        &store,
        &mut context,
        "unknown-redirect",
        None,
        Ok(SOURCE_BODY.to_string()),
    );
    match outcome {
        DispatchOutcome::ServedAsset { path, status, body, .. } => {
            assert_eq!(path, "404.html");
            assert_eq!(status, 404);
            assert_eq!(body, b"<body>Not Found</body>");
        }
        _ => panic!("expected the not-found page"),
    }
}

#[test]
fn test_unknown_redirect_solved_with_refresh() {
    let store = sample_store();
    let mut context = refreshed_context();

    let outcome = request(&store, &mut context, "baz", None, Ok(SOURCE_BODY.to_string()));
    assert!(matches!(outcome, DispatchOutcome::ServedAsset { status: 404, .. }));

    // The upstream source now includes the alias; the next request's refresh
    // picks it up and answers with a redirect.
    let updated = format!("{}\n{}", SOURCE_BODY, "baz http://baz.qux");
    let outcome = request(&store, &mut context, "baz", None, Ok(updated));
    match outcome {
        DispatchOutcome::Redirected { alias, target } => {
            assert_eq!(alias, "baz");
            assert_eq!(target, "http://baz.qux");
        }
        _ => panic!("expected a redirect after the refresh"),
    }
}

#[test]
fn test_bad_redirect_source_error() {
    // The upstream fetch fails on every attempt: the request is answered by
    // the not-found fallback and the (empty) map is left untouched.
    let store = sample_store();
    let mut context = AppContext::new(Config::default_with_redirects("this-is-a-bad-url"));
    let outcome = request(&store, &mut context, "foo", None, fetch_failed());
    assert!(matches!(outcome, DispatchOutcome::ServedAsset { status: 404, .. }));
    assert_eq!(context.redirects().len(), 0);
}

#[test]
fn test_asset_wins_over_redirect() {
    // An asset hit is terminal: the redirect map is never consulted.
    let store = sample_store();
    let mut context = AppContext::new(Config::default_with_redirects("http://example.com"));
    context
        .refresh_redirects(Ok("index.html http://hijack.example".to_string()))
        .unwrap();
    let outcome = request(&store, &mut context, "index.html", None, fetch_failed());
    assert!(matches!(outcome, DispatchOutcome::ServedAsset { status: 200, .. }));
}

#[test]
fn test_fallback_without_not_found_page() {
    let mut store = AssetStore::new();
    store.add(
        "index.html".to_string(),
        b"<body>Hello, World!</body>".to_vec(),
        "text/html".to_string(),
    );
    let mut context = AppContext::new(Config::default_with_redirects("http://example.com"));
    let outcome = request(&store, &mut context, "missing", None, fetch_failed());
    assert!(matches!(outcome, DispatchOutcome::NotFound));
    assert!(matches!(
        not_found_fallback(&store, None),
        DispatchOutcome::NotFound
    ));
}

#[test]
fn test_exactly_one_refresh_per_missed_request() {
    let store = sample_store();
    let context = refreshed_context();
    let redirects = context.redirects();
    // A miss in both the assets and the map asks for exactly one refresh,
    // with the trailing slash stripped from the key; hits ask for none.
    match dispatch(&store, &redirects, "missing/", None) {
        DispatchStep::NeedsRefresh { key } => assert_eq!(key, "missing"),
        _ => panic!("expected a refresh request"),
    }
    assert!(matches!(
        dispatch(&store, &redirects, "foo", None),
        DispatchStep::Done(DispatchOutcome::Redirected { .. })
    ));
    assert!(matches!(
        dispatch(&store, &redirects, "index.html", None),
        DispatchStep::Done(DispatchOutcome::ServedAsset { .. })
    ));
}

#[test]
fn test_end_to_end() {
    let store = sample_store();
    let mut context = AppContext::new(Config::default_with_redirects("http://example.com"));
    // The service start's initial refresh.
    context.refresh_redirects(Ok(SOURCE_BODY.to_string())).unwrap();

    let outcome = request(&store, &mut context, "foo", None, fetch_failed());
    assert!(
        matches!(outcome, DispatchOutcome::Redirected { target, .. } if target == "http://foo.bar")
    );
    let outcome = request(&store, &mut context, "foo/", None, fetch_failed());
    assert!(
        matches!(outcome, DispatchOutcome::Redirected { target, .. } if target == "http://foo.bar")
    );
    let outcome = request(
        &store,
        &mut context,
        "unknown",
        None,
        Ok(SOURCE_BODY.to_string()),
    );
    assert!(matches!(outcome, DispatchOutcome::ServedAsset { status: 404, .. }));

    let updated = format!("{}\n{}", SOURCE_BODY, "baz http://baz.qux");
    let outcome = request(&store, &mut context, "baz", None, Ok(updated));
    assert!(
        matches!(outcome, DispatchOutcome::Redirected { target, .. } if target == "http://baz.qux")
    );
}

#[test]
fn test_error_response() {
    let (status, body) = error_response(&TransportFault::Timeout, "");
    assert_eq!(status, 408);
    assert_eq!(body, "request timed out");

    let (status, body) = error_response(&TransportFault::Overloaded, "");
    assert_eq!(status, 503);
    assert_eq!(body, "service is overloaded, try again later");

    let (status, body) = error_response(&TransportFault::Other, "boom");
    assert_eq!(status, 500);
    assert_eq!(body, "Unhandled internal error: boom");
}

#[test]
fn test_namespaced_name() {
    assert_eq!(requests_total().namespaced_name(), "servy_requests_total");
    assert_eq!(redirects_served().namespaced_name(), "servy_redirects_served");
    assert_eq!(redirects_defined().namespaced_name(), "servy_redirects_defined");
    assert_eq!(response_status().namespaced_name(), "servy_response_status");
}

#[test]
fn test_redirects_defined_gauge_value() {
    // The value reported for the redirects-defined gauge after a refresh is
    // the size of the freshly parsed map.
    let mut context = AppContext::new(Config::default_with_redirects("http://example.com"));
    let map = context.refresh_redirects(Ok(SOURCE_BODY.to_string())).unwrap();
    assert_eq!(map.len(), 2);
}
