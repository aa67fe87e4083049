use hurl_lib::cli::RequestConfig;
use hurl_lib::utils::{extract_status_code, format_duration, is_valid_url};

fn header_value<'a>(headers: &'a [(String, String)], key: &str) -> Option<&'a str> {
    headers
        .iter()
        .find(|(k, _)| k == key)
        .map(|(_, v)| v.as_str())
}

#[test]
fn test_parse_headers_valid() {
    let headers = RequestConfig::parse_headers(vec![
        "Content-Type: application/json".to_string(),
        "Accept: application/json".to_string(),
    ])
    .unwrap();

    assert_eq!(
        header_value(&headers, "Content-Type").unwrap(),
        "application/json"
    );
    assert_eq!(header_value(&headers, "Accept").unwrap(), "application/json");
}

#[test]
fn test_parse_headers_invalid_format() {
    let result = RequestConfig::parse_headers(vec!["InvalidHeader".to_string()]);
    assert!(result.is_err());
}

#[test]
fn test_parse_headers_empty_key() {
    let result = RequestConfig::parse_headers(vec![": value".to_string()]);
    assert!(result.is_err());
}

#[test]
fn test_parse_auth_valid() {
    let (user, pass) = RequestConfig::parse_auth("user:password").unwrap();
    assert_eq!(user, "user");
    assert_eq!(pass, "password");
}

#[test]
fn test_parse_auth_invalid_format() {
    let result = RequestConfig::parse_auth("nopassword");
    assert!(result.is_err());
}

#[test]
fn test_parse_auth_empty_username() {
    let result = RequestConfig::parse_auth(":password");
    assert!(result.is_err());
}

#[test]
fn test_parse_timeout_valid() {
    let timeout = RequestConfig::parse_timeout(Some(30)).unwrap();
    assert_eq!(timeout.unwrap(), 30);
}

#[test]
fn test_parse_timeout_zero() {
    let result = RequestConfig::parse_timeout(Some(0));
    assert!(result.is_err());
}

#[test]
fn test_parse_timeout_none() {
    let timeout = RequestConfig::parse_timeout(None).unwrap();
    assert!(timeout.is_none());
}

#[test]
fn test_parse_url_variants() {
    assert_eq!(
        RequestConfig::parse_url("https://api.example.com").unwrap(),
        "https://api.example.com"
    );
    assert_eq!(
        RequestConfig::parse_url("http://api.example.com").unwrap(),
        "http://api.example.com"
    );
    assert_eq!(
        RequestConfig::parse_url("api.example.com").unwrap(),
        "https://api.example.com"
    );
    assert!(RequestConfig::parse_url("").is_err());
}

#[test]
fn test_is_valid_url() {
    assert!(is_valid_url("https://example.com"));
    assert!(is_valid_url("http://example.com/path"));
    assert!(!is_valid_url("not a url"));
    assert!(!is_valid_url("https://exa mple.com"));
}

#[test]
fn test_extract_status_code() {
    assert_eq!(extract_status_code("HTTP/1.1 200 OK"), Some(200));
    assert_eq!(
        extract_status_code("preface HTTP/1.0 404 Not Found"),
        Some(404)
    );
    assert_eq!(extract_status_code("no status here"), None);
}

#[test]
fn test_format_duration() {
    assert_eq!(format_duration(500), "500ms");
    assert_eq!(format_duration(1500), "1.50s");
}

#[test]
fn test_format_duration_boundaries() {
    assert_eq!(format_duration(0), "0ms");
    assert_eq!(format_duration(999), "999ms");
    assert_eq!(format_duration(1000), "1.00s");
    assert_eq!(format_duration(2345), "2.35s");
}

#[test]
fn test_parse_url_rejects_unparsable() {
    assert!(RequestConfig::parse_url("https://").is_err());
}
