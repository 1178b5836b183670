use tracker_proxy::cache::CachedResponse;
use tracker_proxy::config::Config;
use tracker_proxy::cors::apply_cors_headers;
use tracker_proxy::cors::cors_gate;
use tracker_proxy::cors::CorsDecision;
use tracker_proxy::http::HttpResponse;
use tracker_proxy::pipeline::build_response;

fn default_config() -> Config {
    Config::resolve(Some(b"secret".to_vec()), None, None, None, None, None, None, None).unwrap()
}

fn header<'a>(r: &'a HttpResponse, name: &str) -> Option<&'a [u8]> {
    for (n, v) in r.headers.iter() {
        if n.as_slice() == name.as_bytes() {
            return Some(v.as_slice());
        }
    }
    None
}

#[test]
fn preflight_from_allowed_origin_gets_no_content_and_cors_headers() {
    let c = default_config();
    let d = cors_gate(true, Some(b"https://artistgrid.cx"), &c);
    match d {
        CorsDecision::Respond(r) => {
            assert_eq!(r.status, 204);
            assert!(r.body.is_empty());
            assert_eq!(
                header(&r, "access-control-allow-origin"),
                Some(b"https://artistgrid.cx".as_slice())
            );
            assert_eq!(
                header(&r, "access-control-allow-methods"),
                Some(b"GET, OPTIONS".as_slice())
            );
            assert_eq!(
                header(&r, "access-control-allow-headers"),
                Some(b"Content-Type".as_slice())
            );
            assert_eq!(header(&r, "access-control-max-age"), Some(b"86400".as_slice()));
        },
        CorsDecision::Forward { .. } => panic!("preflight must be terminal"),
    }
}

#[test]
fn preflight_from_disallowed_origin_is_forbidden() {
    let c = default_config();
    let d = cors_gate(true, Some(b"https://evil.example"), &c);
    match d {
        CorsDecision::Respond(r) => {
            assert_eq!(r.status, 403);
            assert_eq!(r.body, b"Origin not allowed".to_vec());
        },
        CorsDecision::Forward { .. } => panic!("disallowed preflight must be terminal"),
    }
}

#[test]
fn preflight_without_origin_is_forbidden() {
    let c = default_config();
    match cors_gate(true, None, &c) {
        CorsDecision::Respond(r) => assert_eq!(r.status, 403),
        CorsDecision::Forward { .. } => panic!("preflight without origin must be terminal"),
    }
}

#[test]
fn get_with_disallowed_origin_is_forbidden_before_any_fetch() {
    let c = default_config();
    // The decision is terminal: the pipeline never runs, so no upstream
    // call is made and the cache is never touched.
    match cors_gate(false, Some(b"https://evil.example"), &c) {
        CorsDecision::Respond(r) => {
            assert_eq!(r.status, 403);
            assert_eq!(r.body, b"Origin not allowed".to_vec());
        },
        CorsDecision::Forward { .. } => panic!("disallowed origin must not reach the pipeline"),
    }
}

#[test]
fn get_with_allowed_origin_forwards_and_echoes() {
    let c = default_config();
    match cors_gate(false, Some(b"https://artistgrid.cx"), &c) {
        CorsDecision::Forward { echo_origin } => {
            assert_eq!(echo_origin, Some(b"https://artistgrid.cx".to_vec()));
        },
        CorsDecision::Respond(_) => panic!("allowed origin must forward"),
    }
}

#[test]
fn get_without_origin_forwards_without_echo() {
    let c = default_config();
    match cors_gate(false, None, &c) {
        CorsDecision::Forward { echo_origin } => assert!(echo_origin.is_none()),
        CorsDecision::Respond(_) => panic!("origin-less request must forward"),
    }
}

#[test]
fn cors_headers_are_appended_to_a_pipeline_response() {
    let cached = CachedResponse { status: 200, body: b"ok".to_vec(), content_type: None };
    let mut r = build_response(&cached, false, 600);
    let before = r.headers.len();
    apply_cors_headers(&mut r, b"https://artistgrid.cx");
    assert_eq!(r.headers.len(), before + 3);
    assert_eq!(
        header(&r, "access-control-allow-origin"),
        Some(b"https://artistgrid.cx".as_slice())
    );
    assert_eq!(header(&r, "access-control-allow-methods"), Some(b"GET, OPTIONS".as_slice()));
    assert_eq!(header(&r, "vary"), Some(b"Origin".as_slice()));
    assert_eq!(r.status, 200);
    assert_eq!(r.body, b"ok".to_vec());
}
