//! An HTTP edge service core: for each request path it resolves one of three
//! outcomes — serve a bundled static asset, issue a permanent redirect to a
//! URL looked up in an externally sourced alias table, or answer not-found.
//!
//! The library holds the verified logic: the redirect specification parser,
//! the redirect map with its refresh-on-miss discipline, the asset resolver
//! with conditional (ETag) handling, and the dispatch chain that ties them
//! together. Network and process plumbing live outside the library and hand
//! it plain values.

pub mod assets;
pub mod config;
pub mod dispatch;
pub mod context;
pub mod metrics;
pub mod redirects;
pub mod strmap;
pub mod text;

use vstd::prelude::*;

verus! {

} // verus!
