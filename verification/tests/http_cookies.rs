use hurl_lib::cookies::{Cookie, CookieJar, SameSite};

#[test]
fn test_cookie_creation() {
    let cookie = Cookie::new("name", "value");
    assert_eq!(cookie.name, "name");
    assert_eq!(cookie.value, "value");
}

#[test]
fn test_cookie_with_domain() {
    let cookie = Cookie::new("name", "value").with_domain("example.com");
    assert_eq!(cookie.domain, Some("example.com".to_string()));
}

#[test]
fn test_cookie_with_path() {
    let cookie = Cookie::new("name", "value").with_path("/api");
    assert_eq!(cookie.path, Some("/api".to_string()));
}

#[test]
fn test_cookie_secure() {
    let cookie = Cookie::new("name", "value").secure();
    assert!(cookie.secure);
}

#[test]
fn test_cookie_http_only() {
    let cookie = Cookie::new("name", "value").http_only();
    assert!(cookie.http_only);
}

#[test]
fn test_cookie_same_site() {
    let cookie = Cookie::new("name", "value").with_same_site(SameSite::Strict);
    assert_eq!(cookie.same_site, SameSite::Strict);
}

#[test]
fn test_cookie_matches_domain() {
    let cookie = Cookie::new("name", "value").with_domain("example.com");
    assert!(cookie.matches_domain("example.com"));
    assert!(!cookie.matches_domain("other.com"));
}

#[test]
fn test_cookie_matches_domain_wildcard() {
    let cookie = Cookie::new("name", "value").with_domain(".example.com");
    assert!(cookie.matches_domain("sub.example.com"));
    assert!(cookie.matches_domain("example.com"));
}

#[test]
fn test_cookie_matches_path() {
    let cookie = Cookie::new("name", "value").with_path("/api");
    assert!(cookie.matches_path("/api"));
    assert!(cookie.matches_path("/api/v1"));
    assert!(!cookie.matches_path("/other"));
}

#[test]
fn test_cookie_to_header_value() {
    let cookie = Cookie::new("session", "abc123");
    assert_eq!(cookie.to_header_value(), "session=abc123");
}

#[test]
fn test_cookie_set_cookie_header() {
    let cookie = Cookie::new("session", "abc")
        .with_domain("example.com")
        .secure();
    let header = cookie.to_set_cookie_header();
    assert_eq!(
        header,
        "session=abc; Domain=example.com; Path=/; Secure; SameSite=Lax"
    );
}

#[test]
fn test_cookie_jar_add() {
    let mut jar = CookieJar::new();
    let cookie = Cookie::new("name", "value");
    jar.add(cookie.duplicate());
    assert_eq!(jar.get("name").unwrap().value, "value");
}

#[test]
fn test_cookie_jar_remove() {
    let mut jar = CookieJar::new();
    jar.add(Cookie::new("name", "value"));
    jar.remove("name");
    assert!(jar.get("name").is_none());
}

#[test]
fn test_cookie_jar_clear() {
    let mut jar = CookieJar::new();
    jar.add(Cookie::new("name1", "value1"));
    jar.add(Cookie::new("name2", "value2"));
    jar.clear();
    assert!(jar.is_empty());
}

#[test]
fn test_cookie_jar_get_for_url() {
    let mut jar = CookieJar::new();
    let cookie = Cookie::new("session", "abc")
        .with_domain("example.com")
        .with_path("/api");
    jar.add(cookie);
    let cookies = jar.get_for_url("example.com", "/api");
    assert_eq!(cookies.len(), 1);
}

#[test]
fn test_cookie_jar_get_cookie_header() {
    let mut jar = CookieJar::new();
    jar.add(
        Cookie::new("session", "abc")
            .with_domain("example.com")
            .with_path("/"),
    );
    let header = jar.get_cookie_header("example.com", "/api");
    assert!(header.is_some());
    assert!(header.unwrap().contains("session=abc"));
}

#[test]
fn test_cookie_jar_len() {
    let mut jar = CookieJar::new();
    jar.add(Cookie::new("name1", "value1"));
    jar.add(Cookie::new("name2", "value2"));
    assert_eq!(jar.len(), 2);
}

#[test]
fn test_cookie_persistence_workflow() {
    let mut jar = CookieJar::new();
    let cookie1 = Cookie::new("session", "abc123")
        .with_domain("example.com")
        .with_path("/")
        .secure()
        .http_only();
    let cookie2 = Cookie::new("tracking", "xyz789")
        .with_domain(".example.com")
        .with_path("/api");

    jar.add(cookie1);
    jar.add(cookie2);

    assert_eq!(jar.len(), 2);
    let cookies = jar.get_for_url("example.com", "/api");
    assert_eq!(cookies.len(), 2);
}

#[test]
fn test_cookie_domain_mismatch() {
    let cookie = Cookie::new("name", "value").with_domain("example.com");
    assert!(!cookie.matches_domain("other.com"));
}

#[test]
fn test_cookie_path_mismatch() {
    let cookie = Cookie::new("name", "value").with_path("/api");
    assert!(!cookie.matches_path("/other"));
}

#[test]
fn test_cookie_expiry_cutoff() {
    let cookie = Cookie::new("name", "value").with_expires(100);
    assert!(!cookie.is_expired_at(100));
    assert!(cookie.is_expired_at(101));
    let fresh = Cookie::new("name", "value");
    assert!(!fresh.is_expired_at(u64::MAX));
}
