//! The per-request dispatch chain: asset lookup, then redirect lookup with
//! one lazy cache refresh, then the not-found fallback. The chain is split
//! at its single suspension point: `dispatch` either finishes or asks for
//! one refresh, and `dispatch_after_refresh` takes the fetch outcome and
//! always finishes — by construction no request triggers more than one
//! refresh attempt.

use vstd::prelude::*;
use vstd::string::*;
use crate::assets::{
    AssetStore, AssetResponse, AssetResponseView, AssetView, resolve_spec, strip_trailing_slash,
};
use crate::context::{AppContext, FetchError};
use crate::redirects::{Redirects, parse_spec};

verus! {

/// The terminal outcome of one request.
pub enum DispatchOutcome {
    /// A bundled asset is served, possibly with a forced not-found status.
    ServedAsset { path: String, status: u16, body: Vec<u8>, etag: String, content_type: String },
    /// The client's conditional tag matched: empty body, status 304.
    NotModified,
    /// A permanent redirect (status 308) to the target of a defined alias.
    Redirected { alias: String, target: String },
    /// Nothing matched and no not-found page is bundled: a generic 404.
    NotFound,
}

/// The mathematical content of a terminal outcome.
pub enum DispatchOutcomeView {
    ServedAsset {
        path: Seq<char>,
        status: u16,
        body: Seq<u8>,
        etag: Seq<char>,
        content_type: Seq<char>,
    },
    NotModified,
    Redirected { alias: Seq<char>, target: Seq<char> },
    NotFound,
}

impl View for DispatchOutcome {
    type V = DispatchOutcomeView;

    open spec fn view(&self) -> DispatchOutcomeView {
        match self {
            DispatchOutcome::ServedAsset { path, status, body, etag, content_type } =>
                DispatchOutcomeView::ServedAsset {
                    path: path@,
                    status: *status,
                    body: body@,
                    etag: etag@,
                    content_type: content_type@,
                },
            DispatchOutcome::NotModified => DispatchOutcomeView::NotModified,
            DispatchOutcome::Redirected { alias, target } =>
                DispatchOutcomeView::Redirected { alias: alias@, target: target@ },
            DispatchOutcome::NotFound => DispatchOutcomeView::NotFound,
        }
    }
}

/// What `dispatch` decides without touching the network: a terminal
/// outcome, or the need for exactly one cache refresh for the given key.
pub enum DispatchStep {
    Done(DispatchOutcome),
    NeedsRefresh { key: String },
}

/// The mathematical content of a dispatch step.
pub enum DispatchStepView {
    Done(DispatchOutcomeView),
    NeedsRefresh(Seq<char>),
}

impl View for DispatchStep {
    type V = DispatchStepView;

    open spec fn view(&self) -> DispatchStepView {
        match self {
            DispatchStep::Done(o) => DispatchStepView::Done(o@),
            DispatchStep::NeedsRefresh { key } => DispatchStepView::NeedsRefresh(key@),
        }
    }
}

/// The outcome a resolver answer turns into.
pub open spec fn outcome_of_asset(r: AssetResponseView) -> DispatchOutcomeView {
    match r {
        AssetResponseView::Full { path, status, body, etag, content_type } =>
            DispatchOutcomeView::ServedAsset { path, status, body, etag, content_type },
        AssetResponseView::NotModified => DispatchOutcomeView::NotModified,
    }
}

/// The not-found fallback: the bundled `404.html` asset if there is one
/// (served with status 404 by the resolver's special case), else a bare
/// not-found outcome.
pub open spec fn fallback_spec(
    assets: Map<Seq<char>, AssetView>,
    inm: Option<Seq<char>>,
) -> DispatchOutcomeView {
    match resolve_spec(assets, "404.html"@, inm) {
        Some(r) => outcome_of_asset(r),
        None => DispatchOutcomeView::NotFound,
    }
}

/// The network-free part of the chain: an asset hit is terminal; on an
/// asset miss the path, with one trailing slash stripped, is looked up in
/// the redirect map; a hit is terminal and a miss asks for one refresh.
pub open spec fn dispatch_spec(
    assets: Map<Seq<char>, AssetView>,
    redirects: Map<Seq<char>, Seq<char>>,
    path: Seq<char>,
    inm: Option<Seq<char>>,
) -> DispatchStepView {
    match resolve_spec(assets, path, inm) {
        Some(r) => DispatchStepView::Done(outcome_of_asset(r)),
        None => {
            let key = strip_trailing_slash(path);
            if redirects.contains_key(key) {
                DispatchStepView::Done(
                    DispatchOutcomeView::Redirected { alias: key, target: redirects[key] },
                )
            } else {
                DispatchStepView::NeedsRefresh(key)
            }
        },
    }
}

/// What the chain answers once the single refresh has been attempted: a
/// fetched body is parsed and the key looked up once more; a hit is a
/// redirect, and a miss — like a failed fetch — falls back to not-found.
pub open spec fn after_refresh_spec(
    assets: Map<Seq<char>, AssetView>,
    key: Seq<char>,
    inm: Option<Seq<char>>,
    fetched: Option<Seq<char>>,
) -> DispatchOutcomeView {
    match fetched {
        Some(body) => {
            let m = parse_spec(body);
            if m.contains_key(key) {
                DispatchOutcomeView::Redirected { alias: key, target: m[key] }
            } else {
                fallback_spec(assets, inm)
            }
        },
        None => fallback_spec(assets, inm),
    }
}

fn outcome_of(resp: AssetResponse) -> (r: DispatchOutcome)
    ensures
        r@ == outcome_of_asset(resp@),
{
    match resp {
        AssetResponse::Full { path, status, body, etag, content_type } =>
            DispatchOutcome::ServedAsset { path, status, body, etag, content_type },
        AssetResponse::NotModified => DispatchOutcome::NotModified,
    }
}

/// Serve the not-found fallback.
pub fn not_found_fallback(assets: &AssetStore, inm: Option<&str>) -> (r: DispatchOutcome)
    ensures
        r@ == fallback_spec(assets@, inm.deep_view()),
{
    match assets.resolve("404.html", inm) {
        Some(resp) => outcome_of(resp),
        None => DispatchOutcome::NotFound,
    }
}

/// Run the chain up to its suspension point. The caller performs the fetch
/// only when a `NeedsRefresh` step comes back, and hands its outcome to
/// `dispatch_after_refresh` with the same key.
pub fn dispatch(assets: &AssetStore, redirects: &Redirects, path: &str, inm: Option<&str>) -> (r:
    DispatchStep)
    ensures
        r@ == dispatch_spec(assets@, redirects@, path@, inm.deep_view()),
{
    match assets.resolve(path, inm) {
        Some(resp) => DispatchStep::Done(outcome_of(resp)),
        None => {
            let n = path.unicode_len();
            let key: &str = if n > 0 && path.get_char(n - 1) == '/' {
                path.substring_char(0, n - 1)
            } else {
                path
            };
            proof {
                assert(key@ =~= strip_trailing_slash(path@));
            }
            match redirects.get(key) {
                Some(target) => DispatchStep::Done(
                    DispatchOutcome::Redirected { alias: key.to_owned(), target: target.clone() },
                ),
                None => DispatchStep::NeedsRefresh { key: key.to_owned() },
            }
        },
    }
}

/// Finish the chain after the single refresh attempt: install the fetch
/// outcome in the context, retry the lookup exactly once, and fall back to
/// not-found on a continued miss or a failed fetch.
pub fn dispatch_after_refresh(
    assets: &AssetStore,
    context: &mut AppContext,
    key: &str,
    inm: Option<&str>,
    fetched: Result<String, FetchError>,
) -> (r: DispatchOutcome)
    ensures
        final(context).url_view() == old(context).url_view(),
        final(context).wf() == (fetched matches Ok(_) || old(context).wf()),
        fetched matches Ok(body) ==> final(context).redirects_view() == parse_spec(body@),
        fetched matches Err(_) ==> final(context).redirects_view() == old(
            context,
        ).redirects_view(),
        r@ == after_refresh_spec(
            assets@,
            key@,
            inm.deep_view(),
            match fetched {
                Ok(body) => Some(body@),
                Err(_) => None,
            },
        ),
{
    match context.refresh_redirects(fetched) {
        Ok(map) => match map.get(key) {
            Some(target) => DispatchOutcome::Redirected {
                alias: key.to_owned(),
                target: target.clone(),
            },
            None => not_found_fallback(assets, inm),
        },
        Err(_) => not_found_fallback(assets, inm),
    }
}

/// Refresh-on-miss, exactly once per request: the chain asks for a refresh
/// precisely when a path misses both the asset set and the current redirect
/// map, the key it asks for is the path with one trailing slash stripped,
/// and with the fetch outcome in hand a single retry decides — a redirect
/// exactly when the freshly parsed map defines the key, and the not-found
/// fallback on a continued miss or a failed fetch. There is no second
/// refresh: `after_refresh_spec` yields a terminal outcome for every fetch
/// outcome.
pub proof fn lemma_refresh_on_miss(
    assets: Map<Seq<char>, AssetView>,
    redirects: Map<Seq<char>, Seq<char>>,
    path: Seq<char>,
    inm: Option<Seq<char>>,
    fetched: Option<Seq<char>>,
)
    ensures
        dispatch_spec(assets, redirects, path, inm) is NeedsRefresh <==> resolve_spec(
            assets,
            path,
            inm,
        ) is None && !redirects.contains_key(strip_trailing_slash(path)),
        dispatch_spec(assets, redirects, path, inm) matches DispatchStepView::NeedsRefresh(k)
            ==> k == strip_trailing_slash(path),
        after_refresh_spec(assets, strip_trailing_slash(path), inm, fetched) == (match fetched {
            Some(body) => if parse_spec(body).contains_key(strip_trailing_slash(path)) {
                DispatchOutcomeView::Redirected {
                    alias: strip_trailing_slash(path),
                    target: parse_spec(body)[strip_trailing_slash(path)],
                }
            } else {
                fallback_spec(assets, inm)
            },
            None => fallback_spec(assets, inm),
        }),
{
}

/// With a `404.html` page bundled — and no asset at `404.html/index.html`
/// shadowing it — a request that exhausts the redirect lookup is answered
/// with that page's body and status 404, not 200, whenever the client's
/// conditional tag does not match the page's hash.
pub proof fn lemma_not_found_page(
    assets: Map<Seq<char>, AssetView>,
    key: Seq<char>,
    inm: Option<Seq<char>>,
    fetched: Option<Seq<char>>,
)
    requires
        assets.contains_key("404.html"@),
        !assets.contains_key("404.html/index.html"@),
        inm != Some(assets["404.html"@].etag),
        match fetched {
            Some(body) => !parse_spec(body).contains_key(key),
            None => true,
        },
    ensures
        after_refresh_spec(assets, key, inm, fetched) == (DispatchOutcomeView::ServedAsset {
            path: "404.html"@,
            status: 404u16,
            body: assets["404.html"@].content,
            etag: assets["404.html"@].etag,
            content_type: assets["404.html"@].content_type,
        }),
{
    reveal_strlit("404.html");
    reveal_strlit("/index.html");
    reveal_strlit("404.html/index.html");
    reveal_strlit("/");
    assert("404.html"@ + "/index.html"@ =~= "404.html/index.html"@);
    assert(!crate::assets::is_root("404.html"@)) by {
        assert("404.html"@.len() == 8);
        assert(seq!['/'].len() == 1);
    }
    assert(strip_trailing_slash("404.html"@) == "404.html"@) by {
        assert("404.html"@.last() == 'l');
    }
    assert(crate::assets::normalize_path(assets, "404.html"@) == "404.html"@);
}

/// The transport layer's failures, classified: a request over the time
/// budget, a request shed because too many are in flight, or any other
/// unexpected error.
pub enum TransportFault {
    Timeout,
    Overloaded,
    Other,
}

/// The status code and body answered for a transport fault: 408 for a
/// timeout, 503 for overload, and a generic 500 carrying the error's text
/// for anything unexpected.
pub fn error_response(fault: &TransportFault, detail: &str) -> (r: (u16, String))
    ensures
        fault is Timeout ==> r.0 == 408 && r.1@ == "request timed out"@,
        fault is Overloaded ==> r.0 == 503 && r.1@
            == "service is overloaded, try again later"@,
        fault is Other ==> r.0 == 500 && r.1@ == "Unhandled internal error: "@ + detail@,
{
    match fault {
        TransportFault::Timeout => (408, "request timed out".to_owned()),
        TransportFault::Overloaded => (503, "service is overloaded, try again later".to_owned()),
        TransportFault::Other => (500, "Unhandled internal error: ".to_owned().concat(detail)),
    }
}

} // verus!
