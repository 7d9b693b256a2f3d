//! The bundled static asset set and its resolver. An asset is a path, its
//! content bytes, a content hash used as an ETag, and a content type. The
//! resolver normalizes a request path (root and directory paths fall through
//! to `index.html`), answers conditional requests by comparing the client's
//! tag against the asset's hash, and serves the asset addressed as
//! `404.html` with a not-found status.

use vstd::prelude::*;
use vstd::string::*;
use crate::strmap::StrMap;
use crate::text::{str_eq, u64_to_hex, hex_str};

verus! {

/// The mathematical content of one bundled asset.
pub struct AssetView {
    pub content: Seq<u8>,
    pub etag: Seq<char>,
    pub content_type: Seq<char>,
}

/// One bundled asset: immutable content with its hash and content type.
pub struct AssetData {
    pub content: Vec<u8>,
    pub etag: String,
    pub content_type: String,
}

impl View for AssetData {
    type V = AssetView;

    open spec fn view(&self) -> AssetView {
        AssetView { content: self.content@, etag: self.etag@, content_type: self.content_type@ }
    }
}

/// The FNV-1a hash of a byte sequence, 64 bits wide.
pub open spec fn fnv1a(bytes: Seq<u8>) -> u64
    decreases bytes.len(),
{
    if bytes.len() == 0 {
        0xcbf29ce484222325u64
    } else {
        vstd::wrapping::u64_specs::wrapping_mul(
            fnv1a(bytes.drop_last()) ^ (bytes.last() as u64),
            0x100000001b3u64,
        )
    }
}

/// The content hash used as an ETag: the FNV-1a hash in hexadecimal.
pub open spec fn etag_spec(bytes: Seq<u8>) -> Seq<char> {
    hex_str(fnv1a(bytes) as nat, 16)
}

/// Compute the content hash of a byte vector.
#[verifier::loop_isolation(false)]
pub fn compute_etag(content: &Vec<u8>) -> (s: String)
    ensures
        s@ == etag_spec(content@),
{
    let mut h: u64 = 0xcbf29ce484222325;
    let mut i: usize = 0;
    while i < content.len()
        invariant
            i <= content@.len(),
            h == fnv1a(content@.take(i as int)),
        decreases content@.len() - i,
    {
        proof {
            assert(content@.take(i + 1).drop_last() =~= content@.take(i as int));
            assert(content@.take(i + 1).last() == content@[i as int]);
        }
        h = (h ^ (content[i] as u64)).wrapping_mul(0x100000001b3);
        i += 1;
    }
    proof {
        assert(content@.take(content@.len() as int) =~= content@);
    }
    u64_to_hex(h)
}

fn clone_bytes(v: &Vec<u8>) -> (r: Vec<u8>)
    ensures
        r@ == v@,
{
    let mut r: Vec<u8> = Vec::new();
    let mut i: usize = 0;
    while i < v.len()
        invariant
            i <= v@.len(),
            r@ =~= v@.take(i as int),
        decreases v@.len() - i,
    {
        r.push(v[i]);
        proof {
            assert(r@ =~= v@.take(i + 1));
        }
        i += 1;
    }
    proof {
        assert(r@ =~= v@);
    }
    r
}

/// What the resolver answers: the full asset with a status, or a bare
/// not-modified marker for a matching conditional tag.
pub enum AssetResponse {
    Full { path: String, status: u16, body: Vec<u8>, etag: String, content_type: String },
    NotModified,
}

/// The mathematical content of a resolver answer.
pub enum AssetResponseView {
    Full { path: Seq<char>, status: u16, body: Seq<u8>, etag: Seq<char>, content_type: Seq<char> },
    NotModified,
}

impl View for AssetResponse {
    type V = AssetResponseView;

    open spec fn view(&self) -> AssetResponseView {
        match self {
            AssetResponse::Full { path, status, body, etag, content_type } =>
                AssetResponseView::Full {
                    path: path@,
                    status: *status,
                    body: body@,
                    etag: etag@,
                    content_type: content_type@,
                },
            AssetResponse::NotModified => AssetResponseView::NotModified,
        }
    }
}

/// Whether a request path addresses the site root.
pub open spec fn is_root(path: Seq<char>) -> bool {
    path.len() == 0 || path == seq!['/']
}

/// A path with one trailing slash removed, if it has one.
pub open spec fn strip_trailing_slash(path: Seq<char>) -> Seq<char> {
    if path.len() > 0 && path.last() == '/' {
        path.drop_last()
    } else {
        path
    }
}

/// The asset path a request path resolves to: the root maps to
/// `index.html`, and a directory whose `index.html` is bundled is preferred
/// over an asset at the bare path.
pub open spec fn normalize_path(assets: Map<Seq<char>, AssetView>, path: Seq<char>) -> Seq<char> {
    if is_root(path) {
        "index.html"@
    } else {
        let base = strip_trailing_slash(path);
        let idx = base + "/index.html"@;
        if assets.contains_key(idx) {
            idx
        } else {
            base
        }
    }
}

/// What resolving a path against the asset set yields: `None` on a lookup
/// miss; not-modified when the conditional tag equals the asset's hash; and
/// otherwise the full asset, with status 404 for the asset addressed as
/// `404.html` and 200 for every other.
pub open spec fn resolve_spec(
    assets: Map<Seq<char>, AssetView>,
    path: Seq<char>,
    inm: Option<Seq<char>>,
) -> Option<AssetResponseView> {
    let p = normalize_path(assets, path);
    if !assets.contains_key(p) {
        None
    } else {
        let a = assets[p];
        if inm == Some(a.etag) {
            Some(AssetResponseView::NotModified)
        } else {
            Some(
                AssetResponseView::Full {
                    path: p,
                    status: if p == "404.html"@ {
                        404u16
                    } else {
                        200u16
                    },
                    body: a.content,
                    etag: a.etag,
                    content_type: a.content_type,
                },
            )
        }
    }
}

/// A conditional request against a path that resolves to a bundled asset:
/// a client tag equal to the asset's hash yields not-modified, and any
/// other tag yields the full asset, body and hash included, with the
/// resolver's status for that path.
pub proof fn lemma_conditional_request(
    assets: Map<Seq<char>, AssetView>,
    path: Seq<char>,
    inm: Seq<char>,
)
    requires
        assets.contains_key(normalize_path(assets, path)),
    ensures
        inm == assets[normalize_path(assets, path)].etag ==> resolve_spec(assets, path, Some(inm))
            == Some(AssetResponseView::NotModified),
        inm != assets[normalize_path(assets, path)].etag ==> resolve_spec(assets, path, Some(inm))
            == Some(
            AssetResponseView::Full {
                path: normalize_path(assets, path),
                status: if normalize_path(assets, path) == "404.html"@ {
                    404u16
                } else {
                    200u16
                },
                body: assets[normalize_path(assets, path)].content,
                etag: assets[normalize_path(assets, path)].etag,
                content_type: assets[normalize_path(assets, path)].content_type,
            },
        ),
{
}

/// The bundled asset set, fixed at startup and never mutated afterwards.
pub struct AssetStore {
    assets: StrMap<AssetData>,
}

impl View for AssetStore {
    type V = Map<Seq<char>, AssetView>;

    closed spec fn view(&self) -> Map<Seq<char>, AssetView> {
        self.assets@
    }
}

impl AssetStore {
    /// The store's entry list has one entry per path.
    pub closed spec fn wf(&self) -> bool {
        self.assets.wf()
    }

    /// An empty asset set.
    pub fn new() -> (s: Self)
        ensures
            s@ == Map::<Seq<char>, AssetView>::empty(),
            s.wf(),
    {
        AssetStore { assets: StrMap::new() }
    }

    /// Bundle an asset: its hash is computed from the content.
    pub fn add(&mut self, path: String, content: Vec<u8>, content_type: String)
        requires
            old(self).wf(),
        ensures
            final(self).wf(),
            final(self)@ == old(self)@.insert(
                path@,
                AssetView {
                    content: content@,
                    etag: etag_spec(content@),
                    content_type: content_type@,
                },
            ),
    {
        let etag = compute_etag(&content);
        self.assets.insert(path, AssetData { content, etag, content_type });
    }

    /// Look an asset path up, with no normalization.
    pub fn get<'a>(&'a self, path: &str) -> (r: Option<&'a AssetData>)
        ensures
            match r {
                Some(a) => self@.contains_key(path@) && a@ == self@[path@],
                None => !self@.contains_key(path@),
            },
    {
        self.assets.get(path)
    }

    /// Resolve a request path, honouring a conditional tag.
    pub fn resolve(&self, path: &str, inm: Option<&str>) -> (r: Option<AssetResponse>)
        ensures
            match r {
                Some(resp) => resolve_spec(self@, path@, inm.deep_view()) == Some(resp@),
                None => resolve_spec(self@, path@, inm.deep_view()) is None,
            },
    {
        let n = path.unicode_len();
        let filename: String;
        if n == 0 || (n == 1 && path.get_char(0) == '/') {
            proof {
                if n == 1 {
                    assert(path@ =~= seq!['/']);
                }
            }
            filename = "index.html".to_owned();
        } else {
            let base: &str = if path.get_char(n - 1) == '/' {
                path.substring_char(0, n - 1)
            } else {
                path
            };
            proof {
                assert(base@ =~= strip_trailing_slash(path@));
            }
            let idx = base.to_owned().concat("/index.html");
            if self.assets.get(idx.as_str()).is_some() {
                filename = idx;
            } else {
                filename = base.to_owned();
            }
        }
        proof {
            assert(filename@ == normalize_path(self@, path@));
        }
        match self.assets.get(filename.as_str()) {
            None => None,
            Some(a) => {
                let matched: bool = match inm {
                    Some(t) => str_eq(t, a.etag.as_str()),
                    None => false,
                };
                if matched {
                    Some(AssetResponse::NotModified)
                } else {
                    let status: u16 = if str_eq(filename.as_str(), "404.html") {
                        404
                    } else {
                        200
                    };
                    Some(
                        AssetResponse::Full {
                            path: filename,
                            status,
                            body: clone_bytes(&a.content),
                            etag: a.etag.clone(),
                            content_type: a.content_type.clone(),
                        },
                    )
                }
            },
        }
    }
}

} // verus!
