use tracker_proxy::config::Config;
use tracker_proxy::origin::is_allowed_origin;

fn default_config() -> Config {
    Config::resolve(Some(b"secret".to_vec()), None, None, None, None, None, None, None).unwrap()
}

#[test]
fn exact_host_with_https_scheme_is_allowed() {
    let c = default_config();
    assert!(is_allowed_origin(b"https://artistgrid.cx", &c));
}

#[test]
fn exact_host_with_http_scheme_and_port_is_allowed() {
    let c = default_config();
    assert!(is_allowed_origin(b"http://artistgrid.cx:8080", &c));
}

#[test]
fn exact_host_without_scheme_is_allowed() {
    let c = default_config();
    assert!(is_allowed_origin(b"artistgrid.cx", &c));
}

#[test]
fn suffix_match_is_allowed() {
    let c = default_config();
    assert!(is_allowed_origin(b"https://mirror.artistgrid.", &c));
}

#[test]
fn foreign_origin_is_rejected() {
    let c = default_config();
    assert!(!is_allowed_origin(b"https://evil.example", &c));
}

#[test]
fn empty_origin_is_rejected() {
    let c = default_config();
    assert!(!is_allowed_origin(b"", &c));
}

#[test]
fn bare_scheme_is_rejected() {
    let c = default_config();
    assert!(!is_allowed_origin(b"https://", &c));
}

#[test]
fn subdomain_of_exact_host_is_rejected() {
    // No case folding or dot-boundary logic: only the exact string or the
    // configured suffix pass.
    let c = default_config();
    assert!(!is_allowed_origin(b"https://sub.artistgrid.cx", &c));
    assert!(!is_allowed_origin(b"https://ARTISTGRID.CX", &c));
}

#[test]
fn port_is_stripped_before_matching() {
    let c = default_config();
    assert!(is_allowed_origin(b"artistgrid.cx:443", &c));
    assert!(!is_allowed_origin(b"https://evil.example:443", &c));
}
