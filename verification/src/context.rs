//! The running service's context: the redirect source URL and the current
//! redirect map. The map is replaced wholesale on a successful refresh and
//! left untouched by a failed one, so stale data stays available. The fetch
//! itself is network work done outside the library; its outcome is handed
//! in as a plain `Result`.

use vstd::prelude::*;
use vstd::string::*;
use crate::config::Config;
use crate::redirects::{Redirects, parse_redirects, parse_spec};
use crate::strmap::StrMap;
use crate::text::{u64_to_string, dec_str};

verus! {

/// A failed upstream fetch: a network error, a non-success status, or a
/// body that could not be decoded. Carries a human-readable description.
#[derive(Debug)]
pub struct FetchError {
    pub message: String,
}

/// The context for a running server: the redirect source URL and the
/// currently defined redirects.
pub struct AppContext {
    redirects_url: String,
    redirects: Redirects,
}

impl AppContext {
    /// The current redirect map.
    pub closed spec fn redirects_view(&self) -> Map<Seq<char>, Seq<char>> {
        self.redirects@
    }

    /// The redirect source URL.
    pub closed spec fn url_view(&self) -> Seq<char> {
        self.redirects_url@
    }

    pub closed spec fn wf(&self) -> bool {
        self.redirects.wf()
    }

    /// Construct a new context for a given configuration; no redirects are
    /// defined until the first refresh.
    pub fn new(config: Config) -> (c: Self)
        ensures
            c.url_view() == config.redirects_url@,
            c.redirects_view() == Map::<Seq<char>, Seq<char>>::empty(),
            c.wf(),
    {
        AppContext { redirects_url: config.redirects_url, redirects: StrMap::new() }
    }

    /// Return a snapshot of the currently defined redirects.
    pub fn redirects(&self) -> (r: Redirects)
        ensures
            r@ == self.redirects_view(),
            r.wf() == self.wf(),
    {
        self.redirects.snapshot()
    }

    /// Return the URL used to fetch and refresh the redirects map.
    pub fn redirects_url(&self) -> (r: &str)
        ensures
            r@ == self.url_view(),
    {
        self.redirects_url.as_str()
    }

    /// The URL to fetch the redirect source from, with a cache-busting query
    /// parameter carrying the current Unix timestamp, so that no intermediate
    /// cache can answer with an old copy.
    pub fn refresh_url(&self, unix_seconds: u64) -> (r: String)
        ensures
            r@ == self.url_view() + "?cachebust="@ + dec_str(unix_seconds as nat),
    {
        let ts = u64_to_string(unix_seconds);
        self.redirects_url.clone().concat("?cachebust=").concat(ts.as_str())
    }

    /// Install the outcome of an upstream fetch. A fetched body is parsed
    /// and replaces the stored map wholesale; a failed fetch leaves the
    /// stored map exactly as it was and propagates the error.
    pub fn refresh_redirects(&mut self, fetched: Result<String, FetchError>) -> (r: Result<
        Redirects,
        FetchError,
    >)
        ensures
            final(self).url_view() == old(self).url_view(),
            final(self).wf() == (fetched matches Ok(_) || old(self).wf()),
            fetched matches Ok(body) ==> {
                &&& final(self).redirects_view() == parse_spec(body@)
                &&& r matches Ok(m) && m@ == parse_spec(body@) && m.wf()
            },
            fetched matches Err(e) ==> {
                &&& final(self).redirects_view() == old(self).redirects_view()
                &&& r matches Err(e2) && e2.message@ == e.message@
            },
    {
        match fetched {
            Ok(body) => {
                let map = parse_redirects(body.as_str());
                self.redirects = map.snapshot();
                Ok(map)
            },
            Err(e) => Err(e),
        }
    }
}

} // verus!
