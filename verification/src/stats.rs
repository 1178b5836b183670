//! Read-only introspection of the cache store for the operational stats
//! endpoint: a point-in-time JSON rendering of entry count, weighted size,
//! TTL and capacity.

use crate::bytestr::append_bytes;
use crate::bytestr::bytes_of_str;
use crate::bytestr::dec_digits;
use crate::bytestr::u64_to_dec;
use crate::cache::CacheStats;
use crate::cache::CacheStore;
use vstd::prelude::*;
use vstd::string::StringSliceAdditionalSpecFns;

verus! {

/// The stats object rendered as a JSON byte string.
pub open spec fn stats_json_model(
    entry_count: u64,
    weighted_size: u64,
    ttl_seconds: u64,
    max_capacity: u64,
) -> Seq<u8> {
    "{\"entry_count\": ".spec_bytes() + dec_digits(entry_count as nat)
        + ", \"weighted_size\": ".spec_bytes() + dec_digits(weighted_size as nat)
        + ", \"ttl_seconds\": ".spec_bytes() + dec_digits(ttl_seconds as nat)
        + ", \"max_capacity\": ".spec_bytes() + dec_digits(max_capacity as nat)
        + "}".spec_bytes()
}

pub fn stats_json(stats: &CacheStats) -> (r: Vec<u8>)
    ensures
        r@ == stats_json_model(
            stats.entry_count,
            stats.weighted_size,
            stats.ttl_seconds,
            stats.max_capacity,
        ),
{
    let mut r = bytes_of_str("{\"entry_count\": ");
    let d1 = u64_to_dec(stats.entry_count);
    append_bytes(&mut r, d1.as_slice());
    append_bytes(&mut r, ", \"weighted_size\": ".as_bytes());
    let d2 = u64_to_dec(stats.weighted_size);
    append_bytes(&mut r, d2.as_slice());
    append_bytes(&mut r, ", \"ttl_seconds\": ".as_bytes());
    let d3 = u64_to_dec(stats.ttl_seconds);
    append_bytes(&mut r, d3.as_slice());
    append_bytes(&mut r, ", \"max_capacity\": ".as_bytes());
    let d4 = u64_to_dec(stats.max_capacity);
    append_bytes(&mut r, d4.as_slice());
    append_bytes(&mut r, "}".as_bytes());
    r
}

/// The stats endpoint's body for the current state of the store.
pub fn report(cache: &CacheStore) -> (r: Vec<u8>)
    requires
        cache.wf(),
    ensures
        r@ == stats_json_model(
            cache.model().len() as u64,
            cache.model().len() as u64,
            cache.spec_ttl(),
            cache.spec_capacity(),
        ),
{
    let s = cache.stats();
    stats_json(&s)
}

} // verus!
