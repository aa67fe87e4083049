use hurl_lib::auth::Auth;
use hurl_lib::request::{ClientConfig, RequestBody, RequestBuilder};
use hurl_lib::response::HttpResponse;

#[test]
fn test_basic_validate() {
    let a = Auth::basic("u", "p");
    assert!(a.validate().is_ok());

    let empty_user = Auth::Basic {
        username: "".to_string(),
        password: "p".to_string(),
    };
    assert!(empty_user.validate().is_err());
}

#[test]
fn response_test_bearer_validate() {
    let a = Auth::bearer("token");
    assert!(a.validate().is_ok());

    let empty = Auth::Bearer {
        token: "".to_string(),
    };
    assert!(empty.validate().is_err());
}

#[test]
fn test_response_creation() {
    let h = vec![(
        "content-type".to_string(),
        "application/json".to_string(),
    )];
    let r = HttpResponse::new(200, h, "{}".to_string());
    assert_eq!(r.status, 200);
    assert_eq!(r.body, "{}");
}

#[test]
fn test_response_header() {
    let h = vec![(
        "Content-Type".to_string(),
        "application/json".to_string(),
    )];
    let r = HttpResponse::new(200, h, "".to_string());
    assert_eq!(r.header("content-type"), Some("application/json"));
}

#[test]
fn test_response_success() {
    let r = HttpResponse::new(200, Vec::new(), "".to_string());
    assert!(r.is_success());
    assert!(!r.is_client_error());
    assert!(!r.is_server_error());
}

#[test]
fn test_response_client_error() {
    let r = HttpResponse::new(404, Vec::new(), "".to_string());
    assert!(!r.is_success());
    assert!(r.is_client_error());
}

#[test]
fn test_response_server_error() {
    let r = HttpResponse::new(500, Vec::new(), "".to_string());
    assert!(!r.is_success());
    assert!(r.is_server_error());
}

#[test]
fn test_client_config() {
    let c = ClientConfig::default();
    assert_eq!(c.max_connections, 32);
    assert_eq!(c.default_timeout_secs, 30);
    assert!(c.enable_cookies);
}

#[test]
fn test_request_builder_methods() {
    assert_eq!(RequestBuilder::get("h").method, "GET");
    assert_eq!(RequestBuilder::post("h").method, "POST");
    assert_eq!(RequestBuilder::put("h").method, "PUT");
    assert_eq!(RequestBuilder::delete("h").method, "DELETE");
    assert_eq!(RequestBuilder::patch("h").method, "PATCH");
    assert_eq!(RequestBuilder::head("h").method, "HEAD");
    assert_eq!(RequestBuilder::options("h").method, "OPTIONS");
}

#[test]
fn test_request_builder_query_url() {
    let rb = RequestBuilder::get("https://h").query_param("key", "value");
    let url = rb.build_url().unwrap();
    assert_eq!(url, "https://h?key=value");
}

#[test]
fn test_request_builder_validate() {
    assert!(RequestBuilder::get("").validate().is_err());
    assert!(RequestBuilder::get("ftp://example.com").validate().is_err());
    assert!(RequestBuilder::get("https://example.com").validate().is_ok());
    assert!(RequestBuilder::get("http://example.com").validate().is_ok());
}

#[test]
fn test_request_body_content_types() {
    assert_eq!(
        RequestBody::Json(hurl_lib::json::JsonValue::Null).content_type(),
        "application/json"
    );
    assert_eq!(
        RequestBody::Form(Vec::new()).content_type(),
        "application/x-www-form-urlencoded"
    );
    assert_eq!(
        RequestBody::Text("text".to_string()).content_type(),
        "text/plain"
    );
    assert_eq!(
        RequestBody::Binary(vec![1, 2]).content_type(),
        "application/octet-stream"
    );
}

#[test]
fn test_form_body_bytes() {
    let body = RequestBody::Form(vec![("key".to_string(), "a b".to_string())]);
    let bytes = body.to_bytes().unwrap();
    assert_eq!(String::from_utf8(bytes).unwrap(), "key=a+b");
}
