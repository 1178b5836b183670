//! The cross-cutting CORS filter, as a pure decision function. For a
//! preflight (`OPTIONS`) request an allowed origin gets a terminal
//! no-content response carrying the CORS headers, and any other preflight
//! is forbidden. For other methods a present-but-disallowed origin is
//! forbidden; otherwise the request proceeds to the pipeline, and when the
//! origin was present and allowed the caller echoes it onto the pipeline's
//! response afterwards with `apply_cors_headers`.

use crate::bytestr::bytes_of_str;
use crate::config::Config;
use crate::http::HttpResponse;
use crate::http::HttpResponseModel;
use crate::origin::is_allowed_origin;
use crate::origin::origin_allowed;
use vstd::prelude::*;
use vstd::slice::slice_to_vec;
use vstd::string::StringSliceAdditionalSpecFns;

verus! {

/// What the filter decided for one request.
pub enum CorsDecision {
    /// Terminal: send this response, do not run the pipeline.
    Respond(HttpResponse),
    /// Run the pipeline; when `echo_origin` is set, append the CORS
    /// headers for that origin to the pipeline's response.
    Forward { echo_origin: Option<Vec<u8>> },
}

/// The terminal preflight response for an allowed origin: no content, the
/// origin echoed back (never a wildcard), and the allowed methods,
/// headers, and preflight max age.
pub open spec fn preflight_model(origin: Seq<u8>) -> HttpResponseModel {
    HttpResponseModel {
        status: 204,
        headers: seq![
            ("access-control-allow-origin".spec_bytes(), origin),
            ("access-control-allow-methods".spec_bytes(), "GET, OPTIONS".spec_bytes()),
            ("access-control-allow-headers".spec_bytes(), "Content-Type".spec_bytes()),
            ("access-control-max-age".spec_bytes(), "86400".spec_bytes()),
        ],
        body: Seq::<u8>::empty(),
    }
}

/// The terminal forbidden response for a rejected origin.
pub open spec fn forbidden_model() -> HttpResponseModel {
    HttpResponseModel {
        status: 403,
        headers: Seq::<(Seq<u8>, Seq<u8>)>::empty(),
        body: "Origin not allowed".spec_bytes(),
    }
}

fn preflight_response(origin: &[u8]) -> (r: HttpResponse)
    ensures
        r@ == preflight_model(origin@),
{
    let mut r = HttpResponse::bare(204, Vec::new());
    r.push_header("access-control-allow-origin", slice_to_vec(origin));
    r.push_header("access-control-allow-methods", bytes_of_str("GET, OPTIONS"));
    r.push_header("access-control-allow-headers", bytes_of_str("Content-Type"));
    r.push_header("access-control-max-age", bytes_of_str("86400"));
    proof {
        assert(r@.headers =~= preflight_model(origin@).headers);
        assert(r@.body =~= preflight_model(origin@).body);
        assert(r@ =~= preflight_model(origin@));
    }
    r
}

fn forbidden_response() -> (r: HttpResponse)
    ensures
        r@ == forbidden_model(),
{
    let r = HttpResponse::bare(403, bytes_of_str("Origin not allowed"));
    proof {
        assert(r@ =~= forbidden_model());
    }
    r
}

/// Decides a request's fate from its method and `Origin` header alone.
pub fn cors_gate(is_options: bool, origin: Option<&[u8]>, config: &Config) -> (r: CorsDecision)
    ensures
        ({
            let o = match origin {
                Some(o) => Some(o@),
                None => None,
            };
            if is_options {
                match o {
                    Some(ov) => if origin_allowed(
                        ov,
                        config.allowed_origin_exact@,
                        config.allowed_origin_suffix@,
                    ) {
                        r matches CorsDecision::Respond(resp) && resp@ == preflight_model(ov)
                    } else {
                        r matches CorsDecision::Respond(resp) && resp@ == forbidden_model()
                    },
                    None => r matches CorsDecision::Respond(resp) && resp@ == forbidden_model(),
                }
            } else {
                match o {
                    Some(ov) => if origin_allowed(
                        ov,
                        config.allowed_origin_exact@,
                        config.allowed_origin_suffix@,
                    ) {
                        r matches CorsDecision::Forward { echo_origin } && echo_origin
                            matches Some(e) && e@ == ov
                    } else {
                        r matches CorsDecision::Respond(resp) && resp@ == forbidden_model()
                    },
                    None => r matches CorsDecision::Forward { echo_origin } && echo_origin
                        is None,
                }
            }
        }),
{
    if is_options {
        match origin {
            Some(o) => {
                if is_allowed_origin(o, config) {
                    CorsDecision::Respond(preflight_response(o))
                } else {
                    CorsDecision::Respond(forbidden_response())
                }
            },
            None => CorsDecision::Respond(forbidden_response()),
        }
    } else {
        match origin {
            Some(o) => {
                if is_allowed_origin(o, config) {
                    CorsDecision::Forward { echo_origin: Some(slice_to_vec(o)) }
                } else {
                    CorsDecision::Respond(forbidden_response())
                }
            },
            None => CorsDecision::Forward { echo_origin: None },
        }
    }
}

/// The headers echoed onto a pipeline response for an allowed origin.
pub open spec fn cors_echo_headers(origin: Seq<u8>) -> Seq<(Seq<u8>, Seq<u8>)> {
    seq![
        ("access-control-allow-origin".spec_bytes(), origin),
        ("access-control-allow-methods".spec_bytes(), "GET, OPTIONS".spec_bytes()),
        ("vary".spec_bytes(), "Origin".spec_bytes()),
    ]
}

/// Appends the CORS headers for `origin` to a finished response. The
/// pipeline never emits these names itself, so appending and replacing
/// coincide.
pub fn apply_cors_headers(resp: &mut HttpResponse, origin: &[u8])
    ensures
        final(resp)@.status == old(resp)@.status,
        final(resp)@.body == old(resp)@.body,
        final(resp)@.headers == old(resp)@.headers + cors_echo_headers(origin@),
{
    resp.push_header("access-control-allow-origin", slice_to_vec(origin));
    resp.push_header("access-control-allow-methods", bytes_of_str("GET, OPTIONS"));
    resp.push_header("vary", bytes_of_str("Origin"));
    proof {
        assert(resp@.headers =~= old(resp)@.headers + cors_echo_headers(origin@));
    }
}

} // verus!
