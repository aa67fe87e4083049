use hurl_lib::cache::{CachePolicies, ResponseCache};
use hurl_lib::chaining::{ChainRequest, ExtractionRule, Extractor, Variables};
use hurl_lib::history::{HistoryStore, SearchQuery};
use hurl_lib::json::JsonValue;
use hurl_lib::response::HttpResponse;

fn create_test_response(status: u16) -> HttpResponse {
    let headers = vec![(
        "content-type".to_string(),
        "application/json".to_string(),
    )];
    HttpResponse::new(status, headers, r#"{"id": 1, "name": "test"}"#.to_string())
        .with_duration(100)
}

#[test]
fn test_response_cache_policies() {
    let policies = CachePolicies {
        default_ttl_ms: 60000,
        max_entries: 10,
        cache_by_method: true,
        cache_successful_only: false,
    };
    let mut cache = ResponseCache::new(policies);
    let response = create_test_response(500);

    cache.put("https://api.example.com", "GET", response);
    assert_eq!(cache.size(), 1);
}

#[test]
fn test_cache_invalidation() {
    let mut cache = ResponseCache::with_default_policies();
    let response = create_test_response(200);

    cache.put("https://api.example.com/users", "GET", response.duplicate());
    cache.put("https://api.example.com/users", "POST", response);

    assert_eq!(cache.size(), 2);
    cache.invalidate("https://api.example.com/users", Some("GET"));
    assert_eq!(cache.size(), 1);
}

#[test]
fn test_cache_hit_and_miss_counters() {
    let mut cache = ResponseCache::with_default_policies();
    let response = create_test_response(200);

    cache.put_at("https://api.example.com/1", "GET", response, 1000);
    assert!(cache.get_at("https://api.example.com/1", "GET", 1001).is_some());
    assert!(cache.get_at("https://api.example.com/2", "GET", 1001).is_none());

    let stats = cache.stats();
    assert_eq!(stats.hits, 1);
    assert_eq!(stats.misses, 1);
    assert_eq!(stats.total_requests, 2);
    assert_eq!(stats.size, 1);
}

#[test]
fn test_cache_ttl_expiry() {
    let mut cache = ResponseCache::with_default_policies();
    let response = create_test_response(200);
    cache.put_with_ttl_at("https://api.example.com", "GET", response, 50, 1000);
    assert!(cache.get_at("https://api.example.com", "GET", 1040).is_some());
    assert!(cache.get_at("https://api.example.com", "GET", 1060).is_none());
    assert_eq!(cache.size(), 0);
}

#[test]
fn test_history_search_empty_result() {
    let store = HistoryStore::new();
    let query = SearchQuery::new().url("nonexistent.com");
    let results = store.search(&query);
    assert_eq!(results.len(), 0);
}

#[test]
fn test_extraction_rule_builders() {
    let rules = vec![
        ExtractionRule::json_path("id", "data.id"),
        ExtractionRule::header("token", "x-token"),
        ExtractionRule::status("code"),
        ExtractionRule::duration("time"),
        ExtractionRule::size("length"),
    ];

    assert_eq!(rules.len(), 5);
    assert_eq!(rules[0].name, "id");
    assert_eq!(rules[1].name, "token");
    assert_eq!(rules[2].name, "code");
}

#[test]
fn test_chain_request_building() {
    let req = ChainRequest::new("POST", "https://api.example.com/users")
        .header("Content-Type", "application/json")
        .header("Authorization", "Bearer token")
        .body(r#"{"name": "John"}"#)
        .extract(ExtractionRule::json_path("user_id", "id"))
        .name("create_user");

    assert_eq!(req.method, "POST");
    assert_eq!(req.headers.len(), 2);
    assert_eq!(req.extractions.len(), 1);
    assert_eq!(req.name, Some("create_user".to_string()));
}

#[test]
fn test_header_extraction() {
    let headers = vec![("x-auth-token".to_string(), "secret123".to_string())];
    let response = HttpResponse::new(200, headers, "{}".to_string());

    let value = Extractor::extract_header(&response, "x-auth-token").unwrap();
    assert_eq!(value, "secret123");
}

#[test]
fn test_extraction_rules_applied_in_order() {
    let json = r#"{"id": 42, "status": "active"}"#;
    let headers = vec![("x-request-id".to_string(), "req-123".to_string())];
    let response = HttpResponse::new(201, headers, json.to_string()).with_duration(250);

    let rules = vec![
        ExtractionRule::json_path("user_id", "id"),
        ExtractionRule::header("request_id", "x-request-id"),
        ExtractionRule::status("response_status"),
        ExtractionRule::duration("response_time"),
        ExtractionRule::size("body_size"),
    ];

    let vars = Extractor::apply_extractions(&response, &rules).unwrap();
    assert_eq!(vars.get_number("user_id"), Some(42));
    assert_eq!(vars.get_string("request_id"), Some("req-123".to_string()));
    assert_eq!(vars.get_number("response_status"), Some(201));
    assert_eq!(vars.get_number("response_time"), Some(250));
}

#[test]
fn test_later_extraction_rule_wins() {
    let response = HttpResponse::new(200, Vec::new(), r#"{"id": 7}"#.to_string())
        .with_duration(90);
    let rules = vec![
        ExtractionRule::status("slot"),
        ExtractionRule::duration("slot"),
    ];
    let vars = Extractor::apply_extractions(&response, &rules).unwrap();
    assert_eq!(vars.get_number("slot"), Some(90));
    assert_eq!(vars.len(), 1);
}

#[test]
fn test_variables_store_operations() {
    let mut vars = Variables::new();
    vars.set("user_id", JsonValue::Num(42));
    vars.set("token", JsonValue::Str("abc123".to_string()));

    assert_eq!(vars.get_number("user_id"), Some(42));
    assert_eq!(vars.get_string("token"), Some("abc123".to_string()));
    assert_eq!(vars.all().len(), 2);

    vars.set("user_id", JsonValue::Num(7));
    assert_eq!(vars.get_number("user_id"), Some(7));
    assert_eq!(vars.all().len(), 2);

    vars.clear();
    assert!(vars.get("user_id").is_none());
}

#[test]
fn test_variables_typed_accessors() {
    let mut vars = Variables::new();
    vars.set("s", JsonValue::Str("hello".to_string()));
    vars.set("n", JsonValue::Num(42));
    vars.set("b", JsonValue::Bool(true));
    vars.set("arr", JsonValue::Arr(vec![JsonValue::Num(1)]));

    assert_eq!(vars.get_string("s"), Some("hello".to_string()));
    assert_eq!(vars.get_string("n"), Some("42".to_string()));
    assert_eq!(vars.get_number("n"), Some(42));
    assert_eq!(vars.get_bool("b"), Some(true));
    assert!(vars.get("arr").is_some());
    assert_eq!(vars.get_number("s"), None);
}

#[test]
fn test_apply_extractions_aborts_without_partial_store() {
    let response = HttpResponse::new(200, Vec::new(), r#"{"id": 7}"#.to_string());
    let rules = vec![
        ExtractionRule::status("first"),
        ExtractionRule::header("missing", "x-absent"),
        ExtractionRule::status("third"),
    ];
    let err = Extractor::apply_extractions(&response, &rules).unwrap_err();
    match err {
        hurl_lib::error::Error::Http(m) => assert_eq!(m, "header not found: x-absent"),
        _ => panic!("expected an HTTP error"),
    }
}

#[test]
fn test_history_entry_records_request() {
    let req = hurl_lib::request::RequestBuilder::get("https://api.example.com/users")
        .header("Content-Type", "application/json");
    let resp = create_test_response(200);
    let entry =
        hurl_lib::history::HistoryEntry::from_request_response(&req, &resp, vec!["api".to_string()])
            .unwrap();
    assert_eq!(entry.id.len(), 36);
    assert_eq!(entry.url, "https://api.example.com/users");
    assert_eq!(entry.method, "GET");
    assert_eq!(entry.status, 200);
    assert_eq!(entry.tags, vec!["api".to_string()]);
    assert!(entry.body.is_none());
}

#[test]
fn test_history_entry_records_text_body() {
    let req = hurl_lib::request::RequestBuilder::post("https://api.example.com/users");
    let req = hurl_lib::request::RequestBuilder {
        body_data: Some(hurl_lib::request::RequestBody::Text("payload text".to_string())),
        ..req
    };
    let resp = create_test_response(201);
    let entry =
        hurl_lib::history::HistoryEntry::from_request_response(&req, &resp, vec![]).unwrap();
    assert_eq!(entry.body.as_deref(), Some("payload text"));
}

#[test]
fn test_history_store_lifecycle() {
    let mut store = HistoryStore::new();
    let req = hurl_lib::request::RequestBuilder::get("https://api.example.com/users");
    let resp = create_test_response(200);
    let entry =
        hurl_lib::history::HistoryEntry::from_request_response(&req, &resp, vec![]).unwrap();
    let id = store.save(entry);
    assert_eq!(store.len(), 1);
    assert!(store.get(&id).is_some());
    assert_eq!(store.search(&SearchQuery::new().method("get")).len(), 1);
    assert_eq!(store.search(&SearchQuery::new().method("POST")).len(), 0);
    assert!(store.delete(&id));
    assert_eq!(store.len(), 0);
}

#[test]
fn test_extract_header_is_case_sensitive() {
    let headers = vec![("X-Token".to_string(), "secret".to_string())];
    let response = HttpResponse::new(200, headers, "{}".to_string());
    assert!(Extractor::extract_header(&response, "X-Token").is_ok());
    assert!(Extractor::extract_header(&response, "x-token").is_err());
    assert_eq!(response.header("x-token"), Some("secret"));
}
