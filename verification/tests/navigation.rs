use brazen::navigation::{normalize_url_input, resolve_startup_url};

#[test]
fn normalizes_bare_domains() {
    let url = normalize_url_input("example.com").unwrap();
    assert_eq!(url, "https://example.com/");
}

#[test]
fn preserves_about_blank() {
    let url = normalize_url_input("about:blank").unwrap();
    assert_eq!(url, "about:blank");
}

#[test]
fn prefixes_localhost_with_http() {
    let url = normalize_url_input("localhost:8000").unwrap();
    assert_eq!(url, "http://localhost:8000/");
}

#[test]
fn rejects_unknown_scheme() {
    let error = normalize_url_input("chrome://version").unwrap_err();
    assert!(error.contains("unsupported"));
}

#[test]
fn resolve_startup_url_skips_blank() {
    assert_eq!(resolve_startup_url("about:blank").unwrap(), None);
    assert_eq!(resolve_startup_url("").unwrap(), None);
}

#[test]
fn normalize_trims_and_refuses_empty() {
    assert_eq!(normalize_url_input("  https://example.com/a  ").unwrap(), "https://example.com/a");
    assert_eq!(normalize_url_input("   ").unwrap_err(), "navigation target is empty");
    assert_eq!(resolve_startup_url(" example.org ").unwrap(), Some("https://example.org/".to_string()));
}

#[test]
fn normalized_addresses_are_web_or_special() {
    for input in ["example.com", "localhost:8080", "https://a.example/x", "about:blank", "data:text/plain,hi", "127.0.0.1"] {
        let out = brazen::navigation::normalize_url_input(input).unwrap();
        assert!(["http://", "https://", "about:", "data:", "file:"].iter().any(|p| out.starts_with(p)), "{out}");
        assert_eq!(brazen::navigation::normalize_url_input(&out).unwrap(), out);
    }
    assert_eq!(brazen::navigation::normalize_url_input(" \t ").unwrap_err(), "navigation target is empty");
    assert_ne!(brazen::navigation::normalize_url_input("ftp://x").unwrap_err(), "navigation target is empty");
}
