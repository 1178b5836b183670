//! The origin gate: decides whether an `Origin` header value may receive a
//! CORS-enabled response. The scheme prefix and any port are stripped, and
//! the remaining host must equal the configured exact-match string or end
//! with the configured suffix. No other normalization is done (no case
//! folding, no IDN handling) — a known, documented limitation.

use crate::bytestr::bytes_eq;
use crate::bytestr::ends_with_bytes;
use crate::bytestr::find_byte;
use crate::bytestr::is_prefix;
use crate::bytestr::is_suffix;
use crate::bytestr::starts_with_bytes;
use crate::config::Config;
use vstd::prelude::*;
use vstd::slice::slice_subrange;
use vstd::string::StringSliceAdditionalSpecFns;

verus! {

/// The origin with an optional `https://` or `http://` prefix removed.
pub open spec fn scheme_stripped(o: Seq<u8>) -> Seq<u8> {
    if is_prefix("https://".spec_bytes(), o) {
        o.skip("https://".spec_bytes().len() as int)
    } else if is_prefix("http://".spec_bytes(), o) {
        o.skip("http://".spec_bytes().len() as int)
    } else {
        o
    }
}

pub open spec fn has_colon(s: Seq<u8>) -> bool {
    exists|i: int| 0 <= i < s.len() && s[i] == 58
}

/// The index of the first colon, meaningful only when `has_colon(s)`.
pub open spec fn first_colon(s: Seq<u8>) -> int {
    choose|i: int|
        0 <= i < s.len() && s[i] == 58 && (forall|j: int| 0 <= j < i ==> s[j] != 58)
}

/// The scheme-and-port-stripped host of an origin value: everything after
/// the scheme up to the first colon.
pub open spec fn host_of(o: Seq<u8>) -> Seq<u8> {
    let s = scheme_stripped(o);
    if has_colon(s) {
        s.take(first_colon(s))
    } else {
        s
    }
}

/// The origin-matching rule: the stripped host equals the exact-match
/// string, or ends with the suffix string.
pub open spec fn origin_allowed(o: Seq<u8>, exact: Seq<u8>, suffix: Seq<u8>) -> bool {
    host_of(o) == exact || is_suffix(suffix, host_of(o))
}

/// The first-colon predicate has exactly one witness.
proof fn lemma_first_colon_unique(s: Seq<u8>, i: int)
    requires
        0 <= i < s.len(),
        s[i] == 58,
        forall|j: int| 0 <= j < i ==> s[j] != 58,
    ensures
        has_colon(s),
        first_colon(s) == i,
{
    assert(0 <= i < s.len() && s[i] == 58 && (forall|j: int| 0 <= j < i ==> s[j] != 58));
    let w = first_colon(s);
    assert(0 <= w < s.len() && s[w] == 58 && (forall|j: int| 0 <= j < w ==> s[j] != 58));
    if w < i {
        assert(s[w] != 58);
    }
    if i < w {
        assert(s[i] != 58);
    }
}

pub fn is_allowed_origin(origin: &[u8], config: &Config) -> (r: bool)
    ensures
        r == origin_allowed(
            origin@,
            config.allowed_origin_exact@,
            config.allowed_origin_suffix@,
        ),
{
    let https = "https://".as_bytes();
    let http = "http://".as_bytes();
    let after_scheme: &[u8] = if starts_with_bytes(origin, https) {
        slice_subrange(origin, https.len(), origin.len())
    } else if starts_with_bytes(origin, http) {
        slice_subrange(origin, http.len(), origin.len())
    } else {
        origin
    };
    proof {
        assert(after_scheme@ =~= scheme_stripped(origin@));
    }
    let host: &[u8] = match find_byte(after_scheme, 58) {
        Some(i) => {
            proof {
                lemma_first_colon_unique(after_scheme@, i as int);
            }
            slice_subrange(after_scheme, 0, i)
        },
        None => {
            proof {
                assert(!has_colon(after_scheme@));
            }
            after_scheme
        },
    };
    proof {
        assert(host@ =~= host_of(origin@));
    }
    bytes_eq(host, config.allowed_origin_exact.as_slice()) || ends_with_bytes(
        host,
        config.allowed_origin_suffix.as_slice(),
    )
}

} // verus!
