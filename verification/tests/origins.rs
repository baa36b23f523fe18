//! Which origins may call a deployment, and how its session cookie is set.
use isabelle_core::origin::{is_loopback_origin, listed, normalize_origin, origin_is_allowed, Listed};
use isabelle_core::startup::session_cookie;

#[test]
fn origins_are_normalized_to_header_form() {
    assert_eq!(
        normalize_origin("https://app.example.com/"),
        Some("https://app.example.com".to_string())
    );
    assert_eq!(
        normalize_origin("https://app.example.com/ui/index.html"),
        Some("https://app.example.com".to_string())
    );
    assert_eq!(
        normalize_origin("  http://localhost:8081  "),
        Some("http://localhost:8081".to_string())
    );
    assert_eq!(
        normalize_origin("HTTPS://app.example.com"),
        Some("https://app.example.com".to_string())
    );
    assert_eq!(
        normalize_origin("https://app.example.com?a=b"),
        Some("https://app.example.com".to_string())
    );
}

#[test]
fn dev_ui_origin_survives() {
    assert_eq!(
        normalize_origin("http://localhost:8081"),
        Some("http://localhost:8081".to_string())
    );
}

#[test]
fn malformed_origins_are_dropped() {
    assert_eq!(normalize_origin(""), None);
    assert_eq!(normalize_origin("localhost:8081"), None);
    assert_eq!(normalize_origin("https://"), None);
    assert_eq!(normalize_origin("://host"), None);
}

#[test]
fn loopback_origins_are_recognised() {
    for o in [
        "http://localhost:8080",
        "http://localhost",
        "https://localhost:3000",
        "http://127.0.0.1:8080",
        "http://[::1]:8080",
    ] {
        assert!(is_loopback_origin(o), "{o} should be loopback");
    }
}

#[test]
fn non_loopback_origins_are_rejected() {
    for o in [
        "http://localhost.evil.com",
        "http://notlocalhost:8080",
        "http://isabelle.dev.:8080",
        "https://app.example.com",
        "file:///etc/passwd",
        "",
    ] {
        assert!(!is_loopback_origin(o), "{o} must not be loopback");
    }
}

fn configured() -> Vec<String> {
    vec![
        "http://localhost:8081/".to_string(),
        "https://app.example.com".to_string(),
    ]
}

#[test]
fn only_configured_origins_are_let_in() {
    let set = configured();
    assert!(origin_is_allowed("http://localhost:8081", &set, false));
    assert!(origin_is_allowed("https://app.example.com", &set, false));
    for origin in [
        "https://evil.example.net",
        "http://localhost:9999",
        "null",
        "http://app.example.com",
    ] {
        assert!(!origin_is_allowed(origin, &set, false), "{origin} was let in");
    }
}

#[test]
fn development_lets_the_own_machine_in() {
    let set = configured();
    assert!(origin_is_allowed("http://localhost:9999", &set, true));
    assert!(!origin_is_allowed("https://evil.example.net", &set, true));
}

#[test]
fn a_setting_that_names_no_origin_is_told_apart_from_none() {
    assert!(matches!(listed("  "), Listed::Nothing));
    assert!(matches!(listed("localhost:8081"), Listed::Malformed));
    match listed("HTTP://Host:1/x") {
        Listed::Origin(o) => assert_eq!(o, "http://Host:1"),
        _ => panic!("an origin was not taken"),
    }
}

#[test]
fn the_session_cookie_is_bound_to_this_site() {
    let c = session_cookie(false);
    assert_eq!(c.name, "isabelle-cookie");
    assert_eq!(c.path, "/");
    assert!(c.same_site_lax && c.http_only && c.secure && c.private && !c.persistent);
    let open = session_cookie(true);
    assert!(!open.secure);
    assert!(open.same_site_lax, "plain connections must not relax anything else");
}

#[test]
fn the_usual_port_is_left_out_as_a_browser_leaves_it_out() {
    for (given, kept) in [
        ("https://app.example.com:443", "https://app.example.com"),
        ("HTTP://app.example.com:80/ui", "http://app.example.com"),
        ("http://app.example.com:443", "http://app.example.com:443"),
        ("https://app.example.com:80", "https://app.example.com:80"),
        ("https://app.example.com:8443", "https://app.example.com:8443"),
        ("http://[::1]:80", "http://[::1]"),
    ] {
        let once = normalize_origin(given).unwrap();
        assert_eq!(once, kept);
        assert_eq!(normalize_origin(&once), Some(once.clone()), "{given} was not settled");
    }
}

#[test]
fn a_bracketed_address_is_taken_whole() {
    assert!(is_loopback_origin("http://[::1]"));
    assert!(is_loopback_origin("https://[::1]:3000"));
    assert!(!is_loopback_origin("http://[::1].evil.test"));
    assert!(!is_loopback_origin("http://[::2]"));
}
