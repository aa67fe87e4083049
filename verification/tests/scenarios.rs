use hurl_lib::assertions::{assert_response, Assertion};
use hurl_lib::chaining::{ChainRequest, ExtractionRule, Extractor, RequestChain, Variables};
use hurl_lib::dsl::HmlParser;
use hurl_lib::error::Error;
use hurl_lib::json::JsonValue;
use hurl_lib::response::HttpResponse;
use hurl_lib::runner::TestRunner;
use hurl_lib::suite::{TestRequest, TestSuite};

fn ok_transport(_req: &TestRequest, _timeout_ms: u64) -> Result<HttpResponse, Error> {
    Ok(HttpResponse::new(200, Vec::new(), "ok".to_string()))
}

fn failing_transport(_req: &TestRequest, _timeout_ms: u64) -> Result<HttpResponse, Error> {
    Err(Error::Http("connection refused".to_string()))
}

#[test]
fn test_json_path_navigation() {
    let doc = r#"{"a":{"b":[{"c":1}]}}"#;
    let value = Extractor::extract_json_path(doc, "a.b[0].c").unwrap();
    assert_eq!(value.as_i64(), Some(1));

    let missing = Extractor::extract_json_path(doc, "a.b[5]");
    match missing {
        Err(Error::Parse(m)) => assert_eq!(m, "path not found: a.b[5]"),
        _ => panic!("expected a parse error"),
    }
}

#[test]
fn test_json_path_malformed_brackets() {
    let doc = r#"{"a":[1,2]}"#;
    match Extractor::extract_json_path(doc, "a[1") {
        Err(Error::Parse(m)) => assert_eq!(m, "malformed array index"),
        _ => panic!("expected a parse error"),
    }
    match Extractor::extract_json_path(doc, "a[x]") {
        Err(Error::Parse(m)) => assert_eq!(m, "invalid array index"),
        _ => panic!("expected a parse error"),
    }
    match Extractor::extract_json_path("not json", "a") {
        Err(Error::Parse(m)) => assert!(m.starts_with("failed to parse json: ")),
        _ => panic!("expected a parse error"),
    }
}

#[test]
fn test_json_path_deep_navigation() {
    let doc = r#"{"data":{"users":[{"id":1,"name":"Alice"},{"id":2,"name":"Bob"}]}}"#;
    let name = Extractor::extract_json_path(doc, "data.users[0].name").unwrap();
    assert_eq!(name.as_str(), Some("Alice"));
    let id = Extractor::extract_json_path(doc, "data.users[1].id").unwrap();
    assert_eq!(id.as_i64(), Some(2));
}

#[test]
fn test_parser_empty_test_name_fails() {
    let parser = HmlParser::new("@test\nGET https://x\n");
    assert!(parser.parse().is_err());
}

#[test]
fn test_parser_directive_outside_block_fails() {
    let parser = HmlParser::new("assert_status: 200\n");
    assert!(parser.parse().is_err());
}

#[test]
fn test_parser_two_blocks_in_order() {
    let content = "@test First\nGET https://a\n\n@test Second\nPOST https://b\n";
    let cases = HmlParser::new(content).parse().unwrap();
    assert_eq!(cases.len(), 2);
    assert_eq!(cases[0].name, "First");
    assert_eq!(cases[0].request.method, "GET");
    assert_eq!(cases[1].name, "Second");
    assert_eq!(cases[1].request.method, "POST");
}

#[test]
fn test_parser_full_directives() {
    let content = "# suite\n@test T\n@tag: smoke\nGET https://example.com\nassert_status: 200\nassert_header: X-Id=7\nassert_body: ok\nassert_regex: ab+\nassert_json: user.name=\"John\"\nassert_time: 1000\n";
    let cases = HmlParser::new(content).parse().unwrap();
    assert_eq!(cases.len(), 1);
    let case = &cases[0];
    assert_eq!(case.name, "T");
    assert_eq!(case.tags, vec!["smoke".to_string()]);
    assert_eq!(case.assertions.len(), 6);
    assert_eq!(case.timeout_ms, 30000);
    match &case.assertions[5] {
        Assertion::ResponseTime { max_ms } => assert_eq!(*max_ms, 1000),
        _ => panic!("expected a response-time assertion"),
    }
}

#[test]
fn test_parser_missing_method_fails() {
    let parser = HmlParser::new("@test T\nassert_status: 200\n");
    assert!(parser.parse().is_err());
}

#[test]
fn test_parser_missing_url_fails() {
    let parser = HmlParser::new("@test T\nGET\nassert_status: 200\n");
    assert!(parser.parse().is_err());
}

#[test]
fn test_parser_invalid_status_fails() {
    let err = HmlParser::new("@test T\nGET https://x\nassert_status: abc\n")
        .parse()
        .unwrap_err();
    assert_eq!(err.line, 3);
    assert_eq!(err.message, "Invalid status code: abc");
}

#[test]
fn test_parser_whitespace_and_comments() {
    let content = "\n# comment\n@test   Named   \nGET   https://example.com   \nassert_status:   200   \n";
    let cases = HmlParser::new(content).parse().unwrap();
    assert_eq!(cases[0].name, "Named");
    assert_eq!(cases[0].request.url, "https://example.com");
}

#[test]
fn test_status_range_boundaries() {
    let assertion = Assertion::StatusRange { min: 200, max: 299 };
    for (status, expected) in [(200u16, true), (299, true), (199, false), (300, false)] {
        let response = HttpResponse::new(status, Vec::new(), "{}".to_string());
        let result = assert_response(&response, &assertion);
        assert_eq!(result.passed, expected, "status {}", status);
    }
}

#[test]
fn test_assertion_suggestions() {
    let response = HttpResponse::new(200, Vec::new(), "{}".to_string());
    let failed = assert_response(&response, &Assertion::StatusCode(500));
    assert!(!failed.passed);
    assert_eq!(
        failed.suggestion.as_deref(),
        Some("Check that the endpoint is responding with the correct status code")
    );
    let passed = assert_response(&response, &Assertion::StatusCode(200));
    assert!(passed.passed);
    assert!(passed.suggestion.is_none());
}

#[test]
fn test_assertion_regex_behaviour() {
    let response = HttpResponse::new(200, Vec::new(), "abc123".to_string());
    let ok = assert_response(
        &response,
        &Assertion::BodyRegex("[a-c]+\\d{3}".to_string()),
    );
    assert!(ok.passed);
    let bad_pattern = assert_response(&response, &Assertion::BodyRegex("(".to_string()));
    assert!(!bad_pattern.passed);
    assert!(bad_pattern.actual.starts_with("regex error: "));
}

#[test]
fn test_assertion_json_path_and_type() {
    let response = HttpResponse::new(
        200,
        Vec::new(),
        r#"{"user":{"name":"John","age":30},"items":[1,2,3]}"#.to_string(),
    );
    let eq = assert_response(
        &response,
        &Assertion::JsonPath {
            path: "user.name".to_string(),
            expected: JsonValue::Str("John".to_string()),
        },
    );
    assert!(eq.passed);
    let ne = assert_response(
        &response,
        &Assertion::JsonPath {
            path: "user.name".to_string(),
            expected: JsonValue::Str("Jane".to_string()),
        },
    );
    assert!(!ne.passed);
    let ty = assert_response(
        &response,
        &Assertion::JsonType {
            path: "items".to_string(),
            expected_type: hurl_lib::json::JsonType::Array,
        },
    );
    assert!(ty.passed);
}

#[test]
fn test_assertion_header_checks() {
    let headers = vec![("Content-Type".to_string(), "application/json".to_string())];
    let response = HttpResponse::new(200, headers, "{}".to_string());
    assert!(assert_response(
        &response,
        &Assertion::HeaderExists("content-type".to_string())
    )
    .passed);
    assert!(assert_response(
        &response,
        &Assertion::HeaderValue {
            name: "Content-Type".to_string(),
            expected: "application/json".to_string(),
        }
    )
    .passed);
    assert!(!assert_response(
        &response,
        &Assertion::HeaderValue {
            name: "Content-Type".to_string(),
            expected: "text/plain".to_string(),
        }
    )
    .passed);
}

#[test]
fn test_interpolation_leaves_unknown_placeholder() {
    let vars = Variables::new();
    let out = hurl_lib::chaining::interpolate("https://x/${missing}", &vars);
    assert_eq!(out, "https://x/${missing}");
}

#[test]
fn test_interpolation_substitutes_values() {
    let mut vars = Variables::new();
    vars.set("id", JsonValue::Num(42));
    vars.set("who", JsonValue::Str("ada".to_string()));
    vars.set("flag", JsonValue::Bool(true));
    let out = hurl_lib::chaining::interpolate(
        "https://x/${who}/${id}?f=${flag}&${missing}",
        &vars,
    );
    assert_eq!(out, "https://x/ada/42?f=true&${missing}");
}

#[test]
fn test_end_to_end_dsl_run() {
    let content = "@test T\nGET https://e.x\nassert_status: 200\nassert_body: ok\n";
    let cases = HmlParser::new(content).parse().unwrap();
    let runner = TestRunner::new().unwrap();
    let result = runner.run_test(&cases[0], &ok_transport);
    assert!(result.passed);
    assert_eq!(result.assertions_passed, 2);
    assert_eq!(result.assertions_total, 2);
    assert_eq!(result.test_name, "T");
}

#[test]
fn test_run_test_transport_failure_is_contained() {
    let content = "@test T\nGET https://e.x\nassert_status: 200\n";
    let cases = HmlParser::new(content).parse().unwrap();
    let runner = TestRunner::new().unwrap();
    let result = runner.run_test(&cases[0], &failing_transport);
    assert!(!result.passed);
    assert_eq!(result.assertions_total, 0);
    assert!(result.error.is_some());
}

#[test]
fn test_run_test_unknown_method() {
    let mut cases = HmlParser::new("@test T\nGET https://e.x\n").parse().unwrap();
    cases[0].request.method = "BREW".to_string();
    let runner = TestRunner::new().unwrap();
    let result = runner.run_test(&cases[0], &ok_transport);
    assert!(!result.passed);
    assert_eq!(
        result.error.as_deref(),
        Some("Unknown HTTP method: BREW")
    );
}

#[test]
fn test_run_suite_in_order() {
    let content = "@test A\nGET https://a\n\n@test B\nGET https://b\nassert_status: 500\n";
    let cases = HmlParser::new(content).parse().unwrap();
    let mut suite = TestSuite::new("Suite");
    suite.add_tests(cases);
    let mut runner = TestRunner::new().unwrap();
    let report = runner.run_suite(&suite, &ok_transport).unwrap();
    assert_eq!(report.total_tests(), 2);
    assert_eq!(report.results[0].test_name, "A");
    assert_eq!(report.results[1].test_name, "B");
    assert!(report.results[0].passed);
    assert!(!report.results[1].passed);
    assert_eq!(report.passed_tests(), 1);
}

#[test]
fn test_runner_filters() {
    let content = "@test alpha_users\n@tag: smoke\nGET https://a\n\n@test beta_items\nGET https://b\n";
    let cases = HmlParser::new(content).parse().unwrap();
    let runner = TestRunner::new().unwrap();
    let by_tag = runner.filter_by_tag(&cases, "smoke");
    assert_eq!(by_tag.len(), 1);
    assert_eq!(by_tag[0].name, "alpha_users");
    let by_name = runner.filter_by_name(&cases, "users");
    assert_eq!(by_name.len(), 1);
    assert_eq!(by_name[0].name, "alpha_users");
    let none = runner.filter_by_name(&cases, "gamma");
    assert_eq!(none.len(), 0);
}

fn chain_transport(req: &ChainRequest) -> Result<HttpResponse, Error> {
    if req.url_template == "https://e.x/start" {
        Ok(HttpResponse::new(200, Vec::new(), r#"{"id":42}"#.to_string()))
    } else {
        Ok(HttpResponse::new(
            200,
            Vec::new(),
            format!("{{\"echo\":\"{}\"}}", req.url_template),
        ))
    }
}

#[test]
fn test_chain_threads_variables() {
    let chain = RequestChain::new()
        .add_request(
            ChainRequest::new("GET", "https://e.x/start")
                .extract(ExtractionRule::json_path("user_id", "id"))
                .name("fetch_id"),
        )
        .add_request(ChainRequest::new("GET", "https://e.x/users/${user_id}"));

    let result = chain.execute_sync(chain_transport).unwrap();
    assert!(result.success);
    assert_eq!(result.context.steps.len(), 2);
    assert_eq!(
        result.context.steps[1].request.url_template,
        "https://e.x/users/42"
    );
    assert_eq!(
        result.context.get_step_by_name("fetch_id").unwrap().name,
        "fetch_id"
    );
    assert_eq!(result.context.steps[1].name, "req_1");
    assert_eq!(
        result.get_variable("user_id").and_then(|v| v.as_i64()),
        Some(42)
    );
}

#[test]
fn test_chain_aborts_on_extraction_failure() {
    let chain = RequestChain::new().add_request(
        ChainRequest::new("GET", "https://e.x/start")
            .extract(ExtractionRule::json_path("nope", "missing")),
    );
    let result = chain.execute_sync(chain_transport);
    assert!(result.is_err());
}

#[test]
fn test_error_variants_render() {
    assert_eq!(
        Error::parse("bad".to_string()).describe(),
        "Parse error: bad"
    );
    assert_eq!(
        Error::http("down".to_string()).describe(),
        "HTTP error: down"
    );
    assert_eq!(
        Error::config("no".to_string()).describe(),
        "Configuration error: no"
    );
    assert_eq!(
        Error::assertion("x".to_string()).describe(),
        "Assertion failed: x"
    );
    assert_eq!(Error::test("t".to_string()).describe(), "Test error: t");
}

#[test]
fn test_empty_chain_succeeds() {
    let chain = RequestChain::new();
    let result = chain.execute_sync(chain_transport).unwrap();
    assert!(result.success);
    assert_eq!(result.context.steps.len(), 0);
}

#[test]
fn test_header_assertion_lookup_is_case_insensitive() {
    let headers = vec![("X-Token".to_string(), "secret".to_string())];
    let response = HttpResponse::new(200, headers, "{}".to_string());
    assert!(assert_response(&response, &Assertion::HeaderExists("x-token".to_string())).passed);
}

#[test]
fn test_assertion_expected_actual_fields() {
    let response = HttpResponse::new(404, Vec::new(), "{}".to_string());
    let r = assert_response(&response, &Assertion::StatusCode(200));
    assert_eq!(r.expected, "200");
    assert_eq!(r.actual, "404");
    let range = assert_response(&response, &Assertion::StatusRange { min: 200, max: 299 });
    assert_eq!(range.expected, "200-299");
    assert_eq!(range.actual, "404");
}

fn batch_stub(req: &hurl_lib::request::RequestBuilder) -> Result<HttpResponse, Error> {
    if req.url.contains("bad") {
        Err(Error::Http("refused".to_string()))
    } else {
        Ok(HttpResponse::new(200, Vec::new(), "ok".to_string()))
    }
}

#[test]
fn test_batch_stop_on_error_cuts_short() {
    let batch = hurl_lib::batch::BatchExecutor::new(4)
        .add_request(hurl_lib::batch::BatchRequest::new(
            "a",
            hurl_lib::request::RequestBuilder::get("https://good"),
        ))
        .add_request(hurl_lib::batch::BatchRequest::new(
            "b",
            hurl_lib::request::RequestBuilder::get("https://bad"),
        ))
        .add_request(hurl_lib::batch::BatchRequest::new(
            "c",
            hurl_lib::request::RequestBuilder::get("https://good"),
        ))
        .with_stop_on_error(true);
    let result = batch.execute(batch_stub).unwrap();
    assert_eq!(result.responses.len(), 2);
    assert_eq!(result.stats.total, 2);
    assert_eq!(result.stats.failed, 1);
    assert!(result.responses[1].error.is_some());
}
