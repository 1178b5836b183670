//! The request pipeline: derive the cache key, consult the store, and build
//! the outbound response from either the cached copy or a freshly fetched
//! upstream result. The network call itself happens outside; its outcome
//! comes back in as a plain `Result` and every decision after that point is
//! made here.
//!
//! The cache key is the request path, with `?` and the query string
//! appended when one is present. The request method is deliberately not
//! part of the key: the proxy serves effectively idempotent reads.

use crate::bytestr::append_bytes;
use crate::bytestr::bytes_of_str;
use crate::bytestr::dec_digits;
use crate::bytestr::u64_to_dec;
use crate::cache::insert_model;
use crate::cache::lookup_model;
use crate::cache::CacheStore;
use crate::cache::CachedResponse;
use crate::cache::CachedResponseView;
use crate::http::HttpResponse;
use crate::http::HttpResponseModel;
use vstd::prelude::*;
use vstd::slice::slice_to_vec;
use vstd::string::StringSliceAdditionalSpecFns;

verus! {

/// Why an upstream fetch yielded no response.
#[derive(Clone, Copy, Debug, PartialEq, Eq)]
pub enum FetchError {
    /// Connection failure, timeout, or any other transport-level error.
    TransportFailure,
    /// The reply arrived but its body could not be fully read.
    BodyReadFailure,
}

pub open spec fn query_view(query: Option<&[u8]>) -> Option<Seq<u8>> {
    match query {
        Some(q) => Some(q@),
        None => None,
    }
}

/// The cache key for a request: `path`, then `?query` when present.
pub open spec fn cache_key_model(path: Seq<u8>, query: Option<Seq<u8>>) -> Seq<u8> {
    match query {
        Some(q) => path + "?".spec_bytes() + q,
        None => path,
    }
}

pub fn cache_key(path: &[u8], query: Option<&[u8]>) -> (r: Vec<u8>)
    ensures
        r@ == cache_key_model(path@, query_view(query)),
{
    let mut r = slice_to_vec(path);
    match query {
        Some(q) => {
            append_bytes(&mut r, "?".as_bytes());
            append_bytes(&mut r, q);
        },
        None => {},
    }
    r
}

/// The full upstream URL: the configured base, then the path and query.
pub open spec fn upstream_url_model(base: Seq<u8>, path: Seq<u8>, query: Option<Seq<u8>>) -> Seq<
    u8,
> {
    base + cache_key_model(path, query)
}

pub fn upstream_url(base: &[u8], path: &[u8], query: Option<&[u8]>) -> (r: Vec<u8>)
    ensures
        r@ == upstream_url_model(base@, path@, query_view(query)),
{
    let mut r = slice_to_vec(base);
    let key = cache_key(path, query);
    append_bytes(&mut r, key.as_slice());
    r
}

/// The `Cache-Control` value sent with every proxied response.
pub open spec fn cache_control_value(ttl_seconds: u64) -> Seq<u8> {
    "public, max-age=".spec_bytes() + dec_digits(ttl_seconds as nat)
}

/// The outbound response for a captured upstream reply: the status and
/// body verbatim, the content type when one was captured, and the cache
/// metadata headers.
pub open spec fn response_model(v: CachedResponseView, from_cache: bool, ttl_seconds: u64)
    -> HttpResponseModel {
    HttpResponseModel {
        status: v.status,
        headers: (match v.content_type {
            Some(ct) => seq![("content-type".spec_bytes(), ct)],
            None => Seq::<(Seq<u8>, Seq<u8>)>::empty(),
        }) + seq![
            ("cache-control".spec_bytes(), cache_control_value(ttl_seconds)),
            (
                "x-cache".spec_bytes(),
                if from_cache {
                    "HIT".spec_bytes()
                } else {
                    "MISS".spec_bytes()
                },
            ),
        ],
        body: v.body,
    }
}

pub fn build_response(cached: &CachedResponse, from_cache: bool, ttl_seconds: u64) -> (r:
    HttpResponse)
    ensures
        r@ == response_model(cached@, from_cache, ttl_seconds),
{
    let mut r = HttpResponse::bare(cached.status, slice_to_vec(cached.body.as_slice()));
    match &cached.content_type {
        Some(ct) => {
            r.push_header("content-type", slice_to_vec(ct.as_slice()));
        },
        None => {},
    }
    let mut cc = bytes_of_str("public, max-age=");
    let digits = u64_to_dec(ttl_seconds);
    append_bytes(&mut cc, digits.as_slice());
    r.push_header("cache-control", cc);
    if from_cache {
        r.push_header("x-cache", bytes_of_str("HIT"));
    } else {
        r.push_header("x-cache", bytes_of_str("MISS"));
    }
    proof {
        assert(r@.headers =~= response_model(cached@, from_cache, ttl_seconds).headers);
        assert(r@ =~= response_model(cached@, from_cache, ttl_seconds));
    }
    r
}

/// The error body for each failure, exactly as sent.
pub open spec fn error_body(e: FetchError) -> Seq<u8> {
    match e {
        FetchError::TransportFailure => "{\"error\": \"Upstream request failed\"}".spec_bytes(),
        FetchError::BodyReadFailure => "{\"error\": \"Failed to read response\"}".spec_bytes(),
    }
}

/// A terminal bad-gateway response with a small JSON error body.
pub open spec fn error_response_model(e: FetchError) -> HttpResponseModel {
    HttpResponseModel {
        status: 502,
        headers: seq![("content-type".spec_bytes(), "application/json".spec_bytes())],
        body: error_body(e),
    }
}

pub fn error_response(e: FetchError) -> (r: HttpResponse)
    ensures
        r@ == error_response_model(e),
{
    let body = match e {
        FetchError::TransportFailure => bytes_of_str("{\"error\": \"Upstream request failed\"}"),
        FetchError::BodyReadFailure => bytes_of_str("{\"error\": \"Failed to read response\"}"),
    };
    let mut r = HttpResponse::bare(502, body);
    r.push_header("content-type", bytes_of_str("application/json"));
    proof {
        assert(r@.headers =~= error_response_model(e).headers);
        assert(r@ =~= error_response_model(e));
    }
    r
}

/// A status an upstream reply must have for its response to be cached.
pub open spec fn cacheable_status(status: u16) -> bool {
    200 <= status < 300
}

/// Miss-then-hit law: a cacheable reply stored on a miss is found by any
/// lookup under the same key within its TTL window, and the hit response
/// carries the same status and body as the miss response did; only the
/// cache marker differs.
pub proof fn lemma_miss_then_hit(
    m: Seq<crate::cache::CacheEntry>,
    key: Seq<u8>,
    v: CachedResponseView,
    t_fetch: u64,
    t_hit: u64,
    ttl: u64,
    capacity: u64,
)
    requires
        crate::cache::keys_unique(m),
        capacity >= 1,
        cacheable_status(v.status),
        t_fetch <= t_hit,
        t_hit < t_fetch + ttl,
    ensures
        lookup_model(insert_model(m, key, v, t_fetch, capacity), key, t_hit, ttl) == Some(v),
        response_model(v, true, ttl).status == response_model(v, false, ttl).status,
        response_model(v, true, ttl).body == response_model(v, false, ttl).body,
{
    crate::cache::lemma_insert_then_get(m, key, v, t_fetch, t_hit, ttl, capacity);
}

/// The cache lookup step: on a hit, the stored reply is served marked
/// `HIT`; on a miss the caller must fetch upstream and finish with
/// `handle_fetched`.
pub fn handle_cached(cache: &CacheStore, path: &[u8], query: Option<&[u8]>, now: u64) -> (r:
    Option<HttpResponse>)
    ensures
        match lookup_model(
            cache.model(),
            cache_key_model(path@, query_view(query)),
            now,
            cache.spec_ttl(),
        ) {
            Some(v) => r matches Some(resp) && resp@ == response_model(v, true, cache.spec_ttl()),
            None => r is None,
        },
{
    let key = cache_key(path, query);
    match cache.get(key.as_slice(), now) {
        Some(hit) => Some(build_response(hit, true, cache.ttl_seconds())),
        None => None,
    }
}

/// The post-fetch step. A transport or body-read failure turns into the
/// terminal 502 response and leaves the store untouched. A captured reply
/// is stored under the cache key only when its status is in [200, 300),
/// and is served marked `MISS` whatever its status.
pub fn handle_fetched(
    cache: &mut CacheStore,
    path: &[u8],
    query: Option<&[u8]>,
    fetched: Result<CachedResponse, FetchError>,
    now: u64,
) -> (r: HttpResponse)
    requires
        old(cache).wf(),
    ensures
        final(cache).wf(),
        final(cache).spec_ttl() == old(cache).spec_ttl(),
        final(cache).spec_capacity() == old(cache).spec_capacity(),
        match fetched {
            Err(e) => r@ == error_response_model(e) && final(cache).model() == old(cache).model(),
            Ok(v) => {
                &&& r@ == response_model(v@, false, old(cache).spec_ttl())
                &&& cacheable_status(v.status) ==> final(cache).model() == insert_model(
                    old(cache).model(),
                    cache_key_model(path@, query_view(query)),
                    v@,
                    now,
                    old(cache).spec_capacity(),
                )
                &&& !cacheable_status(v.status) ==> final(cache).model() == old(cache).model()
            },
        },
{
    match fetched {
        Err(e) => error_response(e),
        Ok(v) => {
            let r = build_response(&v, false, cache.ttl_seconds());
            if v.status >= 200 && v.status < 300 {
                let key = cache_key(path, query);
                cache.insert(key, v, now);
            }
            r
        },
    }
}

} // verus!
