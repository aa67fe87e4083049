use hurl_lib::assertions::AssertionResult;
use hurl_lib::runner::{TestResultCache, TestRunner};
use hurl_lib::suite::{TestReport, TestResult};

#[test]
fn test_test_result_creation() {
    let result = TestResult::new("test_pass".to_string());
    assert!(result.passed);
    assert_eq!(result.assertions_passed, 0);
    assert_eq!(result.assertions_total, 0);
}

#[test]
fn test_test_result_add_assertion() {
    let mut result = TestResult::new("test".to_string());
    let assertion = AssertionResult::new(
        true,
        "status_code".to_string(),
        "200".to_string(),
        "200".to_string(),
        "passed".to_string(),
    );

    result.add_assertion_result(assertion);
    assert_eq!(result.assertions_total, 1);
    assert_eq!(result.assertions_passed, 1);
    assert!(result.passed);
}

#[test]
fn test_test_result_failed_assertion() {
    let mut result = TestResult::new("test".to_string());
    let assertion = AssertionResult::new(
        false,
        "status_code".to_string(),
        "200".to_string(),
        "500".to_string(),
        "failed".to_string(),
    );

    result.add_assertion_result(assertion);
    assert_eq!(result.assertions_total, 1);
    assert_eq!(result.assertions_passed, 0);
    assert!(!result.passed);
}

#[test]
fn test_test_report_creation() {
    let report = TestReport::new("Suite".to_string());
    assert_eq!(report.total_tests(), 0);
    assert_eq!(report.passed_tests(), 0);
    assert_eq!(report.failed_tests(), 0);
}

#[test]
fn test_test_report_add_result() {
    let mut report = TestReport::new("Suite".to_string());
    let result = TestResult::new("test1".to_string());
    report.add_result(result);
    assert_eq!(report.total_tests(), 1);
}

#[test]
fn test_test_report_success_rate_mixed() {
    let mut report = TestReport::new("Suite".to_string());

    let mut result1 = TestResult::new("test1".to_string());
    result1.passed = true;

    let mut result2 = TestResult::new("test2".to_string());
    result2.passed = false;

    report.add_result(result1);
    report.add_result(result2);

    assert_eq!(report.total_tests(), 2);
    assert_eq!(report.passed_tests(), 1);
    assert_eq!(report.failed_tests(), 1);
    let (num, den) = report.success_rate();
    let rate = num as f64 / den as f64;
    assert!(rate > 40.0 && rate < 60.0);
}

#[test]
fn test_test_report_success_rate_empty() {
    let report = TestReport::new("Suite".to_string());
    let (num, den) = report.success_rate();
    assert_eq!((num, den), (100, 1));
    assert_eq!(num as f64 / den as f64, 100.0);
}

#[test]
fn test_test_report_success_rate_exact() {
    let mut report = TestReport::new("Suite".to_string());
    for i in 0..4 {
        let mut result = TestResult::new(format!("t{}", i));
        result.passed = i < 3;
        report.add_result(result);
    }
    let (num, den) = report.success_rate();
    assert_eq!((num, den), (300, 4));
    assert_eq!(num as f64 / den as f64, 75.0);
}

#[test]
fn test_test_report_summary() {
    let report = TestReport::new("Test Suite".to_string());
    let summary = report.summary();
    assert!(summary.contains("Test Suite"));
    assert!(summary.contains("Total Tests: 0"));
    assert!(summary.contains("Success Rate: 100.0%"));
}

#[test]
fn test_test_result_summary() {
    let result = TestResult::new("test".to_string());
    let summary = result.summary();
    assert!(summary.contains("0/0"));
}

#[test]
fn test_test_report_assertion_counts() {
    let mut report = TestReport::new("Suite".to_string());

    let mut result = TestResult::new("test1".to_string());
    result.assertions_total = 5;
    result.assertions_passed = 3;

    report.add_result(result);

    assert_eq!(report.total_assertions(), 5);
    assert_eq!(report.passed_assertions(), 3);
}

#[test]
fn test_test_result_cache_insert_get() {
    let mut cache = TestResultCache::new();
    let result = TestResult::new("test1".to_string());
    cache.insert("key1".to_string(), result);
    assert!(cache.get("key1").is_some());
}

#[test]
fn test_test_result_cache_clear() {
    let mut cache = TestResultCache::new();
    let result = TestResult::new("test1".to_string());
    cache.insert("key1".to_string(), result);
    cache.clear();
    assert!(cache.get("key1").is_none());
}

#[test]
fn test_runner_cache_roundtrip() {
    let mut runner = TestRunner::new().unwrap();
    runner.clear_cache();
}

#[test]
fn test_html_report_rendering() {
    let mut report = TestReport::new("Suite".to_string());
    let mut result = TestResult::new("one".to_string());
    result.add_assertion_result(AssertionResult::new(
        false,
        "status_code".to_string(),
        "200".to_string(),
        "500".to_string(),
        "mismatch".to_string(),
    ));
    report.add_result(result);
    let html = report.render_html("2024-01-01 00:00:00");
    assert!(html.starts_with("<!DOCTYPE html>"));
    assert!(html.contains("Test Report: Suite"));
    assert!(html.contains("Generated: 2024-01-01 00:00:00"));
    assert!(html.contains("<div class=\"test-name\">one</div>"));
    assert!(html.contains("Expected: 200 | Actual: 500"));
    assert!(html.ends_with("</body>\n</html>"));
    let stamped = report.generate_html_report();
    assert!(stamped.starts_with("<!DOCTYPE html>"));
}
