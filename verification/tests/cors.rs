use multiview_control::cors::{origin_allowed, signalling_cors};

#[test]
fn wildcard_allows_any_origin() {
    let allow = vec!["*".to_owned()];
    assert!(origin_allowed(&allow, "https://anything.example"));
    assert!(origin_allowed(&allow, "http://localhost:5173"));
}

#[test]
fn concrete_list_is_exact_match_only() {
    let allow = vec!["https://app.example.org".to_owned()];
    assert!(origin_allowed(&allow, "https://app.example.org"));
    assert!(!origin_allowed(&allow, "https://evil.example.com"));
    // No scheme/subdomain fuzzy matching.
    assert!(!origin_allowed(&allow, "http://app.example.org"));
    assert!(!origin_allowed(&allow, "https://app.example.org.evil.com"));
}

#[test]
fn empty_list_allows_nothing() {
    assert!(!origin_allowed(&[], "https://app.example.org"));
}

fn plan(origin: Option<&str>, preflight: bool, status: u16) -> (bool, Vec<(String, String)>) {
    let allow = vec!["https://app.example.org".to_owned()];
    let p = signalling_cors(&allow, origin, preflight, status);
    (p.no_content, p.headers.into_iter().map(|h| (h.name, h.value)).collect())
}

fn header(name: &str, value: &str) -> (String, String) {
    (name.to_owned(), value.to_owned())
}

#[test]
fn an_allowed_origin_is_reflected() {
    let (replaced, headers) = plan(Some("https://app.example.org"), false, 201);
    assert!(!replaced);
    assert_eq!(
        headers,
        vec![
            header("access-control-expose-headers", "location, link"),
            header("vary", "Origin"),
            header("access-control-allow-origin", "https://app.example.org"),
        ]
    );
}

#[test]
fn a_preflight_succeeds_and_names_what_is_allowed() {
    let (replaced, headers) = plan(Some("https://app.example.org"), true, 405);
    assert!(replaced, "a route without a preflight handler is answered empty");
    assert_eq!(
        headers,
        vec![
            header("allow", "GET, POST, DELETE, OPTIONS"),
            header("access-control-allow-methods", "GET, POST, DELETE, OPTIONS"),
            header("access-control-allow-headers", "authorization, content-type"),
            header("access-control-max-age", "600"),
            header("vary", "Origin"),
            header("access-control-allow-origin", "https://app.example.org"),
        ]
    );
    assert!(!plan(Some("https://app.example.org"), true, 204).0, "one that answers is kept");
}

#[test]
fn a_caller_without_an_allowed_origin_gets_no_access_headers() {
    for origin in [None, Some("https://evil.example.com")] {
        assert_eq!(plan(origin, false, 405), (false, vec![header("vary", "Origin")]));
        assert_eq!(
            plan(origin, true, 204),
            (
                false,
                vec![header("allow", "GET, POST, DELETE, OPTIONS"), header("vary", "Origin")]
            )
        );
    }
}
