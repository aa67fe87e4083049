//! Test cases, results, suites and reports.

use vstd::prelude::*;
use crate::assertions::{AresV, Assertion, AssertionResult, AsrtV};
use crate::clock;
use crate::text;

verus! {

/// The request a test case sends: method, URL, headers and optional body.
#[derive(Debug)]
pub struct TestRequest {
    pub method: String,
    pub url: String,
    pub headers: Vec<(String, String)>,
    pub body: Option<String>,
}

/// The mathematical shape of a test request.
#[verifier::ext_equal]
pub struct TreqV {
    pub method: Seq<char>,
    pub url: Seq<char>,
    pub headers: Seq<(Seq<char>, Seq<char>)>,
    pub body: Option<Seq<char>>,
}

impl View for TestRequest {
    type V = TreqV;

    open spec fn view(&self) -> TreqV {
        TreqV {
            method: self.method@,
            url: self.url@,
            headers: self.headers@.map_values(|p: (String, String)| (p.0@, p.1@)),
            body: match self.body {
                Some(b) => Some(b@),
                None => None,
            },
        }
    }
}

impl TestRequest {
    /// A copy of this request.
    #[verifier::loop_isolation(false)]
    pub fn duplicate(&self) -> (r: TestRequest)
        ensures
            r@ == self@,
    {
        let n = self.headers.len();
        let mut headers: Vec<(String, String)> = Vec::new();
        let mut i: usize = 0;
        while i < n
            invariant
                0 <= i <= n,
                headers@.len() == i,
                forall|k: int|
                    #![all_triggers]
                    0 <= k < i ==> headers@[k].0@ == self.headers@[k].0@ && headers@[k].1@
                        == self.headers@[k].1@,
            decreases n - i,
        {
            headers.push((self.headers[i].0.clone(), self.headers[i].1.clone()));
            i = i + 1;
        }
        let r = TestRequest {
            method: self.method.clone(),
            url: self.url.clone(),
            headers,
            body: match &self.body {
                Some(b) => Some(b.clone()),
                None => None,
            },
        };
        proof {
            assert(r@.headers =~= self@.headers);
            assert(r@ =~= self@);
        }
        r
    }
}

/// One named request plus its assertions, tags and timeout.
#[derive(Debug)]
pub struct TestCase {
    pub name: String,
    pub request: TestRequest,
    pub assertions: Vec<Assertion>,
    pub tags: Vec<String>,
    pub timeout_ms: u64,
}

/// The mathematical shape of a test case.
#[verifier::ext_equal]
pub struct TcV {
    pub name: Seq<char>,
    pub request: TreqV,
    pub assertions: Seq<AsrtV>,
    pub tags: Seq<Seq<char>>,
    pub timeout_ms: u64,
}

impl View for TestCase {
    type V = TcV;

    open spec fn view(&self) -> TcV {
        TcV {
            name: self.name@,
            request: self.request@,
            assertions: self.assertions@.map_values(|a: Assertion| a@),
            tags: self.tags@.map_values(|t: String| t@),
            timeout_ms: self.timeout_ms,
        }
    }
}

impl TestCase {
    /// A copy of this test case.
    #[verifier::loop_isolation(false)]
    pub fn duplicate(&self) -> (r: TestCase)
        ensures
            r@ == self@,
    {
        let n = self.assertions.len();
        let mut assertions: Vec<Assertion> = Vec::new();
        let mut i: usize = 0;
        while i < n
            invariant
                0 <= i <= n,
                assertions@.len() == i,
                forall|k: int| #![all_triggers] 0 <= k < i ==> assertions@[k]@ == self.assertions@[k]@,
            decreases n - i,
        {
            assertions.push(self.assertions[i].duplicate());
            i = i + 1;
        }
        let m = self.tags.len();
        let mut tags: Vec<String> = Vec::new();
        let mut j: usize = 0;
        while j < m
            invariant
                0 <= j <= m,
                tags@.len() == j,
                forall|k: int| #![all_triggers] 0 <= k < j ==> tags@[k]@ == self.tags@[k]@,
            decreases m - j,
        {
            tags.push(self.tags[j].clone());
            j = j + 1;
        }
        let r = TestCase {
            name: self.name.clone(),
            request: self.request.duplicate(),
            assertions,
            tags,
            timeout_ms: self.timeout_ms,
        };
        proof {
            assert(r@.assertions =~= self@.assertions);
            assert(r@.tags =~= self@.tags);
            assert(r@ =~= self@);
        }
        r
    }

    /// Whether this case carries the given tag.
    #[verifier::loop_isolation(false)]
    pub fn has_tag(&self, tag: &str) -> (r: bool)
        ensures
            r == self@.tags.contains(tag@),
    {
        let n = self.tags.len();
        let mut i: usize = 0;
        while i < n
            invariant
                0 <= i <= n,
                forall|k: int| 0 <= k < i ==> self@.tags[k] != tag@,
            decreases n - i,
    {
            if text::str_eq(self.tags[i].as_str(), tag) {
                proof {
                    assert(self@.tags[i as int] == tag@);
                }
                return true;
            }
            i = i + 1;
        }
        proof {
            assert(forall|k: int| 0 <= k < self@.tags.len() ==> self@.tags[k] != tag@);
        }
        false
    }
}

/// One executed test: verdict, timing, per-assertion outcomes.
#[derive(Debug)]
pub struct TestResult {
    pub test_name: String,
    pub passed: bool,
    pub duration_ms: u64,
    pub assertions_passed: usize,
    pub assertions_total: usize,
    pub assertion_results: Vec<AssertionResult>,
    pub error: Option<String>,
    pub timestamp: String,
}

/// The mathematical shape of a test result.
#[verifier::ext_equal]
pub struct TresV {
    pub test_name: Seq<char>,
    pub passed: bool,
    pub duration_ms: u64,
    pub assertions_passed: int,
    pub assertions_total: int,
    pub assertion_results: Seq<AresV>,
    pub error: Option<Seq<char>>,
    pub timestamp: Seq<char>,
}

impl View for TestResult {
    type V = TresV;

    open spec fn view(&self) -> TresV {
        TresV {
            test_name: self.test_name@,
            passed: self.passed,
            duration_ms: self.duration_ms,
            assertions_passed: self.assertions_passed as int,
            assertions_total: self.assertions_total as int,
            assertion_results: self.assertion_results@.map_values(|a: AssertionResult| a@),
            error: match self.error {
                Some(e) => Some(e@),
                None => None,
            },
            timestamp: self.timestamp@,
        }
    }
}

impl TestResult {
    /// A fresh result for a named test: passing, with nothing evaluated
    /// yet, stamped with the current local time.
    pub fn new(test_name: String) -> (r: TestResult)
        ensures
            r.test_name@ == test_name@,
            r.passed,
            r.duration_ms == 0,
            r.assertions_passed == 0,
            r.assertions_total == 0,
            r@.assertion_results == Seq::<AresV>::empty(),
            r.error is None,
    {
        let r = TestResult {
            test_name,
            passed: true,
            duration_ms: 0,
            assertions_passed: 0,
            assertions_total: 0,
            assertion_results: Vec::new(),
            error: None,
            timestamp: clock::local_timestamp(),
        };
        proof {
            assert(r@.assertion_results =~= Seq::<AresV>::empty());
        }
        r
    }

    /// Records one evaluated assertion: the totals grow, and one failure
    /// makes the whole test failed.
    pub fn add_assertion_result(&mut self, result: AssertionResult)
        requires
            old(self).assertions_total < usize::MAX,
            old(self).assertions_passed < usize::MAX,
        ensures
            final(self).assertions_total == old(self).assertions_total + 1,
            final(self).assertions_passed == old(self).assertions_passed + (if result.passed {
                1int
            } else {
                0int
            }),
            final(self).passed == (old(self).passed && result.passed),
            final(self)@.assertion_results == old(self)@.assertion_results.push(result@),
            final(self).test_name@ == old(self).test_name@,
            final(self).duration_ms == old(self).duration_ms,
            final(self)@.error == old(self)@.error,
            final(self)@.timestamp == old(self)@.timestamp,
    {
        self.assertions_total = self.assertions_total + 1;
        if result.passed {
            self.assertions_passed = self.assertions_passed + 1;
        } else {
            self.passed = false;
        }
        let ghost before = self@.assertion_results;
        self.assertion_results.push(result);
        proof {
            assert(self@.assertion_results =~= before.push(
                self.assertion_results@.last()@,
            ));
        }
    }

    /// Marks the test failed with a top-level error message.
    pub fn set_error(&mut self, error: String)
        ensures
            !final(self).passed,
            final(self)@.error == Some(error@),
            final(self).test_name@ == old(self).test_name@,
            final(self).duration_ms == old(self).duration_ms,
            final(self).assertions_passed == old(self).assertions_passed,
            final(self).assertions_total == old(self).assertions_total,
            final(self)@.assertion_results == old(self)@.assertion_results,
            final(self)@.timestamp == old(self)@.timestamp,
    {
        self.passed = false;
        self.error = Some(error);
    }

    /// Records how long the test took.
    pub fn set_duration(&mut self, duration_ms: u64)
        ensures
            final(self)@ == (TresV { duration_ms, ..old(self)@ }),
    {
        self.duration_ms = duration_ms;
        proof {
            assert(final(self)@ =~= (TresV { duration_ms, ..old(self)@ }));
        }
    }

    /// A one-line rendering of the verdict and counts.
    pub fn summary(&self) -> (r: String)
        ensures
            r@ == (if self.passed {
                "PASS: "@
            } else {
                "FAIL: "@
            }) + text::dec_str(self@.assertions_passed) + seq!['/'] + text::dec_str(
                self@.assertions_total,
            ) + " assertions passed in "@ + text::dec_str(self.duration_ms as int) + "ms"@,
    {
        let mut out = if self.passed {
            String::from_str("PASS: ")
        } else {
            String::from_str("FAIL: ")
        };
        text::push_u64(&mut out, self.assertions_passed as u64);
        text::push_char(&mut out, '/');
        text::push_u64(&mut out, self.assertions_total as u64);
        out.append(" assertions passed in ");
        text::push_u64(&mut out, self.duration_ms);
        out.append("ms");
        proof {
            assert(out@ =~= (if self.passed {
                "PASS: "@
            } else {
                "FAIL: "@
            }) + text::dec_str(self@.assertions_passed) + seq!['/'] + text::dec_str(
                self@.assertions_total,
            ) + " assertions passed in "@ + text::dec_str(self.duration_ms as int) + "ms"@);
        }
        out
    }
}

/// An ordered collection of test cases run and reported together.
#[derive(Debug)]
pub struct TestSuite {
    pub name: String,
    pub test_cases: Vec<TestCase>,
}

impl TestSuite {
    /// An empty suite with a name.
    pub fn new(name: &str) -> (r: TestSuite)
        ensures
            r.name@ == name@,
            r.test_cases@.len() == 0,
    {
        TestSuite { name: String::from_str(name), test_cases: Vec::new() }
    }

    /// Appends one test case.
    pub fn add_test(&mut self, test_case: TestCase)
        ensures
            final(self).test_cases@ == old(self).test_cases@.push(test_case),
            final(self).name@ == old(self).name@,
    {
        self.test_cases.push(test_case);
    }

    /// Appends a list of test cases in order.
    #[verifier::loop_isolation(false)]
    pub fn add_tests(&mut self, test_cases: Vec<TestCase>)
        ensures
            final(self).test_cases@ == old(self).test_cases@ + test_cases@,
            final(self).name@ == old(self).name@,
    {
        let mut rest = test_cases;
        let ghost all = rest@;
        proof {
            assert(old(self).test_cases@ + all.subrange(0, 0) =~= old(self).test_cases@);
        }
        while rest.len() > 0
            invariant
                rest@.len() <= all.len(),
                rest@ == all.subrange(all.len() - rest@.len(), all.len() as int),
                self.test_cases@ == old(self).test_cases@ + all.subrange(
                    0,
                    all.len() - rest@.len(),
                ),
                self.name@ == old(self).name@,
            decreases rest@.len(),
        {
            let ghost done = all.len() - rest@.len();
            let case = rest.remove(0);
            self.test_cases.push(case);
            proof {
                assert(rest@ =~= all.subrange(done + 1, all.len() as int));
                assert(self.test_cases@ =~= old(self).test_cases@ + all.subrange(0, done + 1));
            }
        }
        proof {
            assert(all.subrange(0, all.len() as int) =~= all);
            assert(self.test_cases@ =~= old(self).test_cases@ + all);
        }
    }
}

/// The number of passing results among `s`.
pub open spec fn count_passed(s: Seq<TresV>) -> int
    decreases s.len(),
{
    if s.len() == 0 {
        0
    } else {
        count_passed(s.drop_last()) + if s.last().passed {
            1int
        } else {
            0int
        }
    }
}

/// The summed assertion totals of the results in `s`.
pub open spec fn sum_assertions(s: Seq<TresV>) -> int
    decreases s.len(),
{
    if s.len() == 0 {
        0
    } else {
        sum_assertions(s.drop_last()) + s.last().assertions_total
    }
}

/// The summed counts of passed assertions of the results in `s`.
pub open spec fn sum_passed_assertions(s: Seq<TresV>) -> int
    decreases s.len(),
{
    if s.len() == 0 {
        0
    } else {
        sum_passed_assertions(s.drop_last()) + s.last().assertions_passed
    }
}

/// The aggregated outcome of one suite run.
#[derive(Debug)]
pub struct TestReport {
    pub suite_name: String,
    pub results: Vec<TestResult>,
    pub total_duration_ms: u64,
    pub start_time: String,
    pub end_time: String,
}

impl TestReport {
    /// An empty report stamped with the current local time.
    pub fn new(suite_name: String) -> (r: TestReport)
        ensures
            r.suite_name@ == suite_name@,
            r.results@.len() == 0,
            r.total_duration_ms == 0,
            r.end_time@ == Seq::<char>::empty(),
    {
        TestReport {
            suite_name,
            results: Vec::new(),
            total_duration_ms: 0,
            start_time: clock::local_timestamp(),
            end_time: String::new(),
        }
    }

    /// Appends one result.
    pub fn add_result(&mut self, result: TestResult)
        ensures
            final(self).results@ == old(self).results@.push(result),
            final(self).suite_name@ == old(self).suite_name@,
            final(self).total_duration_ms == old(self).total_duration_ms,
    {
        self.results.push(result);
    }

    /// Stamps the report's end time.
    pub fn finalize(&mut self)
        ensures
            final(self).results@ == old(self).results@,
            final(self).suite_name@ == old(self).suite_name@,
    {
        self.end_time = clock::local_timestamp();
    }

    /// The spec-level results.
    pub open spec fn results_view(&self) -> Seq<TresV> {
        self.results@.map_values(|r: TestResult| r@)
    }

    /// How many tests ran.
    pub fn total_tests(&self) -> (r: usize)
        ensures
            r == self.results@.len(),
    {
        self.results.len()
    }

    /// How many tests passed.
    #[verifier::loop_isolation(false)]
    pub fn passed_tests(&self) -> (r: usize)
        ensures
            r == count_passed(self.results_view()),
    {
        let n = self.results.len();
        let mut count: usize = 0;
        let mut i: usize = 0;
        proof {
            assert(self.results_view().subrange(0, 0) =~= Seq::<TresV>::empty());
        }
        while i < n
            invariant
                0 <= i <= n,
                n == self.results@.len(),
                count <= i,
                count == count_passed(self.results_view().subrange(0, i as int)),
            decreases n - i,
        {
            let ghost pref = self.results_view().subrange(0, i + 1);
            proof {
                assert(pref.drop_last() =~= self.results_view().subrange(0, i as int));
                assert(pref.last() == self.results@[i as int]@);
            }
            if self.results[i].passed {
                count = count + 1;
            }
            i = i + 1;
        }
        proof {
            assert(self.results_view().subrange(0, n as int) =~= self.results_view());
        }
        count
    }

    /// How many tests failed.
    pub fn failed_tests(&self) -> (r: usize)
        ensures
            r == self.results@.len() - count_passed(self.results_view()),
    {
        proof {
            lemma_count_passed_bound(self.results_view());
        }
        self.total_tests() - self.passed_tests()
    }

    /// The success rate as an exact fraction of a percent: numerator over
    /// denominator.  A run of zero tests counts as wholly successful.
    pub fn success_rate(&self) -> (r: (u128, u128))
        ensures
            self.results@.len() == 0 ==> r == (100u128, 1u128),
            self.results@.len() > 0 ==> r == (
                (count_passed(self.results_view()) * 100) as u128,
                self.results@.len() as u128,
            ),
    {
        let total = self.total_tests();
        if total == 0 {
            (100, 1)
        } else {
            let passed = self.passed_tests();
            ((passed as u128) * 100, total as u128)
        }
    }

    /// The summed assertion count of every result, clamped at the machine
    /// limit.
    #[verifier::loop_isolation(false)]
    pub fn total_assertions(&self) -> (r: usize)
        ensures
            r == clamp_usize(sum_assertions(self.results_view())),
    {
        let n = self.results.len();
        let mut sum: usize = 0;
        let mut i: usize = 0;
        proof {
            assert(self.results_view().subrange(0, 0) =~= Seq::<TresV>::empty());
        }
        while i < n
            invariant
                0 <= i <= n,
                n == self.results@.len(),
                sum == clamp_usize(sum_assertions(self.results_view().subrange(0, i as int))),
            decreases n - i,
        {
            let ghost pref = self.results_view().subrange(0, i + 1);
            proof {
                assert(pref.drop_last() =~= self.results_view().subrange(0, i as int));
                assert(pref.last() == self.results@[i as int]@);
            }
            sum = sum.saturating_add(self.results[i].assertions_total);
            i = i + 1;
        }
        proof {
            assert(self.results_view().subrange(0, n as int) =~= self.results_view());
        }
        sum
    }

    /// The summed count of passed assertions, clamped at the machine
    /// limit.
    #[verifier::loop_isolation(false)]
    pub fn passed_assertions(&self) -> (r: usize)
        ensures
            r == clamp_usize(sum_passed_assertions(self.results_view())),
    {
        let n = self.results.len();
        let mut sum: usize = 0;
        let mut i: usize = 0;
        proof {
            assert(self.results_view().subrange(0, 0) =~= Seq::<TresV>::empty());
        }
        while i < n
            invariant
                0 <= i <= n,
                n == self.results@.len(),
                sum == clamp_usize(
                    sum_passed_assertions(self.results_view().subrange(0, i as int)),
                ),
            decreases n - i,
        {
            let ghost pref = self.results_view().subrange(0, i + 1);
            proof {
                assert(pref.drop_last() =~= self.results_view().subrange(0, i as int));
                assert(pref.last() == self.results@[i as int]@);
            }
            sum = sum.saturating_add(self.results[i].assertions_passed);
            i = i + 1;
        }
        proof {
            assert(self.results_view().subrange(0, n as int) =~= self.results_view());
        }
        sum
    }
}

/// The success rate in tenths of a percent, rounded half up; a run of
/// zero tests counts as wholly successful.
pub open spec fn rate_tenths(passed: int, total: int) -> int {
    if total == 0 {
        1000
    } else {
        (passed * 2000 / total + 1) / 2
    }
}

impl TestReport {
    /// A plain-text summary of the whole report.
    pub fn summary(&self) -> (r: String)
        ensures
            r@ == "Test Suite: "@ + self.suite_name@ + "\nTotal Tests: "@ + text::dec_str(
                self.results@.len() as int,
            ) + "\nPassed: "@ + text::dec_str(count_passed(self.results_view())) + "\nFailed: "@
                + text::dec_str(self.results@.len() - count_passed(self.results_view()))
                + "\nSuccess Rate: "@ + text::dec_str(
                rate_tenths(count_passed(self.results_view()), self.results@.len() as int) / 10,
            ) + seq!['.'] + text::dec_str(
                rate_tenths(count_passed(self.results_view()), self.results@.len() as int) % 10,
            ) + "%\nTotal Assertions: "@ + text::dec_str(
                clamp_usize(sum_assertions(self.results_view())),
            ) + "\nPassed Assertions: "@ + text::dec_str(
                clamp_usize(sum_passed_assertions(self.results_view())),
            ) + "\nTotal Duration: "@ + text::dec_str(self.total_duration_ms as int) + "ms\nStarted: "@
                + self.start_time@ + "\nEnded: "@ + self.end_time@,
    {
        let total = self.total_tests();
        let passed = self.passed_tests();
        let failed = self.failed_tests();
        let tenths: u128 = if total == 0 {
            1000
        } else {
            ((passed as u128) * 2000 / (total as u128) + 1) / 2
        };
        proof {
            lemma_count_passed_bound(self.results_view());
            if total > 0 {
                assert((passed as int) * 2000 / (total as int) <= 2000) by (nonlinear_arith)
                    requires
                        0 <= passed as int <= total as int,
                        total as int > 0,
                ;
            }
            assert(tenths == rate_tenths(
                count_passed(self.results_view()),
                self.results@.len() as int,
            ));
            assert(tenths <= 1000);
        }
        let mut out = String::from_str("Test Suite: ");
        out.append(self.suite_name.as_str());
        out.append("\nTotal Tests: ");
        text::push_u64(&mut out, total as u64);
        out.append("\nPassed: ");
        text::push_u64(&mut out, passed as u64);
        out.append("\nFailed: ");
        text::push_u64(&mut out, failed as u64);
        out.append("\nSuccess Rate: ");
        text::push_u64(&mut out, (tenths / 10) as u64);
        text::push_char(&mut out, '.');
        text::push_u64(&mut out, (tenths % 10) as u64);
        out.append("%\nTotal Assertions: ");
        text::push_u64(&mut out, self.total_assertions() as u64);
        out.append("\nPassed Assertions: ");
        text::push_u64(&mut out, self.passed_assertions() as u64);
        out.append("\nTotal Duration: ");
        text::push_u64(&mut out, self.total_duration_ms);
        out.append("ms\nStarted: ");
        out.append(self.start_time.as_str());
        out.append("\nEnded: ");
        out.append(self.end_time.as_str());
        out
    }
}


/// The style and document head of the rendered report.
pub open spec fn html_head() -> Seq<char> {
    r#"<!DOCTYPE html>
<html>
<head>
    <meta charset="utf-8">
    <title>Test Report</title>
    <style>
        body { font-family: Arial, sans-serif; margin: 20px; background: #f5f5f5; }
        .header { background: #333; color: white; padding: 20px; border-radius: 5px; }
        .summary { background: white; padding: 15px; margin: 15px 0; border-radius: 5px; }
        .stat { display: inline-block; margin-right: 30px; }
        .stat-label { color: #666; font-size: 0.9em; }
        .stat-value { font-size: 1.5em; font-weight: bold; }
        .test-result { background: white; padding: 15px; margin: 10px 0; border-radius: 5px; border-left: 5px solid #999; }
        .test-result.pass { border-left-color: #28a745; }
        .test-result.fail { border-left-color: #dc3545; }
        .test-name { font-weight: bold; font-size: 1.1em; }
        .test-status { margin: 10px 0; }
        .pass { color: #28a745; }
        .fail { color: #dc3545; }
        .assertion { margin-left: 20px; padding: 10px; background: #f9f9f9; margin-top: 5px; border-radius: 3px; }
        .assertion.pass { border-left: 3px solid #28a745; }
        .assertion.fail { border-left: 3px solid #dc3545; }
        table { width: 100%; border-collapse: collapse; }
        th, td { padding: 10px; text-align: left; border-bottom: 1px solid #ddd; }
        th { background: #f0f0f0; font-weight: bold; }
    </style>
</head>
<body>
"#@
}

/// The pass/fail word a verdict renders as.
pub open spec fn verdict_class(passed: bool) -> Seq<char> {
    if passed {
        "pass"@
    } else {
        "fail"@
    }
}

/// One rendered assertion block.
pub open spec fn html_assertion(a: AresV) -> Seq<char> {
    "<div class=\"assertion "@ + verdict_class(a.passed) + "\">\n        <strong>"@ + a.assertion
        + "</strong>: "@ + (if a.passed {
        "ok"@
    } else {
        "failed"@
    }) + "\n        <div style=\"margin-top: 5px; color: #666;\">Expected: "@ + a.expected
        + " | Actual: "@ + a.actual + "</div>\n    </div>"@
}

/// The rendered assertion blocks of a result, in order.
pub open spec fn html_assertions(s: Seq<AresV>) -> Seq<char>
    decreases s.len(),
{
    if s.len() == 0 {
        Seq::empty()
    } else {
        html_assertions(s.drop_last()) + html_assertion(s.last())
    }
}

/// The heading lines of one rendered test-result block.
pub open spec fn html_result_head(r: TresV) -> Seq<char> {
    "<div class=\"test-result "@ + verdict_class(r.passed) + "\">\n    <div class=\"test-name\">"@
        + r.test_name + "</div>\n    <div class=\"test-status\"><span class=\""@ + verdict_class(
        r.passed,
    ) + "\">"@ + (if r.passed {
        "PASS"@
    } else {
        "FAIL"@
    }) + "</span> - "@ + text::dec_str(r.duration_ms as int) + "ms</div>\n    <div>Assertions: "@
        + text::dec_str(r.assertions_passed) + seq!['/'] + text::dec_str(r.assertions_total)
        + "</div>"@ + (match r.error {
        Some(e) => "<div class=\"fail\">Error: "@ + e + "</div>"@,
        None => Seq::empty(),
    })
}

/// One rendered test-result block.
pub open spec fn html_result(r: TresV) -> Seq<char> {
    html_result_head(r) + html_assertions(r.assertion_results) + "</div>"@
}

/// The rendered result blocks, in report order.
pub open spec fn html_results(s: Seq<TresV>) -> Seq<char>
    decreases s.len(),
{
    if s.len() == 0 {
        Seq::empty()
    } else {
        html_results(s.drop_last()) + html_result(s.last())
    }
}

/// The whole rendered document for a report generated at `now`.
pub open spec fn html_report(suite: Seq<char>, now: Seq<char>, results: Seq<TresV>) -> Seq<char> {
    html_head() + "<div class=\"header\">\n    <h1>Test Report: "@ + suite
        + "</h1>\n    <p>Generated: "@ + now + "</p>\n</div>"@
        + "<div class=\"summary\">\n    <h2>Summary</h2>\n    <div class=\"stat\">\n        <div class=\"stat-label\">Total Tests</div>\n        <div class=\"stat-value\">"@
        + text::dec_str(results.len() as int)
        + "</div>\n    </div>\n    <div class=\"stat\">\n        <div class=\"stat-label\">Passed</div>\n        <div class=\"stat-value pass\">"@
        + text::dec_str(count_passed(results))
        + "</div>\n    </div>\n    <div class=\"stat\">\n        <div class=\"stat-label\">Failed</div>\n        <div class=\"stat-value fail\">"@
        + text::dec_str(results.len() - count_passed(results))
        + "</div>\n    </div>\n    <div class=\"stat\">\n        <div class=\"stat-label\">Success Rate</div>\n        <div class=\"stat-value\">"@
        + text::dec_str(rate_tenths(count_passed(results), results.len() as int) / 10)
        + seq!['.'] + text::dec_str(
        rate_tenths(count_passed(results), results.len() as int) % 10,
    ) + "%</div>\n    </div>\n</div>"@ + "<h2>Test Results</h2>"@ + html_results(results)
        + "\n</body>\n</html>"@
}

impl TestReport {
    /// Renders the report as a self-contained document, stamped with the
    /// given generation time.
    #[verifier::loop_isolation(false)]
    #[verifier::rlimit(100)]
    pub fn render_html(&self, generated_at: &str) -> (r: String)
        ensures
            r@ == html_report(self.suite_name@, generated_at@, self.results_view()),
    {
        let mut html = String::from_str(
            r#"<!DOCTYPE html>
<html>
<head>
    <meta charset="utf-8">
    <title>Test Report</title>
    <style>
        body { font-family: Arial, sans-serif; margin: 20px; background: #f5f5f5; }
        .header { background: #333; color: white; padding: 20px; border-radius: 5px; }
        .summary { background: white; padding: 15px; margin: 15px 0; border-radius: 5px; }
        .stat { display: inline-block; margin-right: 30px; }
        .stat-label { color: #666; font-size: 0.9em; }
        .stat-value { font-size: 1.5em; font-weight: bold; }
        .test-result { background: white; padding: 15px; margin: 10px 0; border-radius: 5px; border-left: 5px solid #999; }
        .test-result.pass { border-left-color: #28a745; }
        .test-result.fail { border-left-color: #dc3545; }
        .test-name { font-weight: bold; font-size: 1.1em; }
        .test-status { margin: 10px 0; }
        .pass { color: #28a745; }
        .fail { color: #dc3545; }
        .assertion { margin-left: 20px; padding: 10px; background: #f9f9f9; margin-top: 5px; border-radius: 3px; }
        .assertion.pass { border-left: 3px solid #28a745; }
        .assertion.fail { border-left: 3px solid #dc3545; }
        table { width: 100%; border-collapse: collapse; }
        th, td { padding: 10px; text-align: left; border-bottom: 1px solid #ddd; }
        th { background: #f0f0f0; font-weight: bold; }
    </style>
</head>
<body>
"#,
        );
        html.append("<div class=\"header\">\n    <h1>Test Report: ");
        html.append(self.suite_name.as_str());
        html.append("</h1>\n    <p>Generated: ");
        html.append(generated_at);
        html.append("</p>\n</div>");
        let ghost g1 = html_head() + "<div class=\"header\">\n    <h1>Test Report: "@
            + self.suite_name@ + "</h1>\n    <p>Generated: "@ + generated_at@ + "</p>\n</div>"@;
        proof {
            assert(html@ =~= g1);
        }
        let total = self.total_tests();
        let passed = self.passed_tests();
        let failed = self.failed_tests();
        let tenths: u128 = if total == 0 {
            1000
        } else {
            ((passed as u128) * 2000 / (total as u128) + 1) / 2
        };
        proof {
            lemma_count_passed_bound(self.results_view());
            if total > 0 {
                assert((passed as int) * 2000 / (total as int) <= 2000) by (nonlinear_arith)
                    requires
                        0 <= passed as int <= total as int,
                        total as int > 0,
                ;
            }
            assert(tenths == rate_tenths(
                count_passed(self.results_view()),
                self.results@.len() as int,
            ));
            assert(tenths <= 1000);
        }
        html.append(
            "<div class=\"summary\">\n    <h2>Summary</h2>\n    <div class=\"stat\">\n        <div class=\"stat-label\">Total Tests</div>\n        <div class=\"stat-value\">",
        );
        text::push_u64(&mut html, total as u64);
        html.append(
            "</div>\n    </div>\n    <div class=\"stat\">\n        <div class=\"stat-label\">Passed</div>\n        <div class=\"stat-value pass\">",
        );
        text::push_u64(&mut html, passed as u64);
        html.append(
            "</div>\n    </div>\n    <div class=\"stat\">\n        <div class=\"stat-label\">Failed</div>\n        <div class=\"stat-value fail\">",
        );
        text::push_u64(&mut html, failed as u64);
        html.append(
            "</div>\n    </div>\n    <div class=\"stat\">\n        <div class=\"stat-label\">Success Rate</div>\n        <div class=\"stat-value\">",
        );
        text::push_u64(&mut html, (tenths / 10) as u64);
        text::push_char(&mut html, '.');
        text::push_u64(&mut html, (tenths % 10) as u64);
        html.append("%</div>\n    </div>\n</div>");
        html.append("<h2>Test Results</h2>");
        let ghost g2 = html@;
        let n = self.results.len();
        let mut i: usize = 0;
        proof {
            assert(html_results(self.results_view().subrange(0, 0)) =~= Seq::<char>::empty());
        }
        while i < n
            invariant
                0 <= i <= n,
                n == self.results@.len(),
                html@ == g2 + html_results(self.results_view().subrange(0, i as int)),
            decreases n - i,
        {
            let ghost pref = self.results_view().subrange(0, i + 1);
            proof {
                assert(pref.drop_last() =~= self.results_view().subrange(0, i as int));
                assert(pref.last() == self.results@[i as int]@);
            }
            self.push_result_html(i, &mut html);
            proof {
                assert(html@ =~= g2 + html_results(pref));
            }
            i = i + 1;
        }
        html.append("\n</body>\n</html>");
        proof {
            assert(self.results_view().subrange(0, n as int) =~= self.results_view());
            assert(html@ =~= html_report(self.suite_name@, generated_at@, self.results_view()));
        }
        html
    }

    /// Appends one result's block to the document.
    #[verifier::loop_isolation(false)]
    #[verifier::rlimit(100)]
    fn push_result_html(&self, index: usize, html: &mut String)
        requires
            index < self.results@.len(),
        ensures
            final(html)@ == old(html)@ + html_result(self.results@[index as int]@),
    {
        let result = &self.results[index];
        let class_word: &str = if result.passed {
            "pass"
        } else {
            "fail"
        };
        html.append("<div class=\"test-result ");
        html.append(class_word);
        html.append("\">\n    <div class=\"test-name\">");
        html.append(result.test_name.as_str());
        html.append("</div>\n    <div class=\"test-status\"><span class=\"");
        html.append(class_word);
        html.append("\">");
        html.append(if result.passed {
            "PASS"
        } else {
            "FAIL"
        });
        html.append("</span> - ");
        text::push_u64(html, result.duration_ms);
        html.append("ms</div>\n    <div>Assertions: ");
        text::push_u64(html, result.assertions_passed as u64);
        text::push_char(html, '/');
        text::push_u64(html, result.assertions_total as u64);
        html.append("</div>");
        match &result.error {
            Some(e) => {
                html.append("<div class=\"fail\">Error: ");
                html.append(e.as_str());
                html.append("</div>");
            },
            None => {},
        }
        proof {
            reveal_strlit("pass");
            reveal_strlit("fail");
            assert(html@ =~= old(html)@ + html_result_head(self.results@[index as int]@));
        }
        let ghost g3 = html@;
        let m = result.assertion_results.len();
        let ghost av = self.results@[index as int]@.assertion_results;
        let mut j: usize = 0;
        proof {
            assert(html_assertions(av.subrange(0, 0)) =~= Seq::<char>::empty());
        }
        while j < m
            invariant
                0 <= j <= m,
                m == av.len(),
                av == self.results@[index as int]@.assertion_results,
                index < self.results@.len(),
                html@ == g3 + html_assertions(av.subrange(0, j as int)),
            decreases m - j,
        {
            let ghost apref = av.subrange(0, j + 1);
            proof {
                assert(apref.drop_last() =~= av.subrange(0, j as int));
                assert(apref.last() == self.results@[index as int].assertion_results@[j as int]@);
            }
            push_assertion_html(&result.assertion_results[j], html);
            proof {
                assert(html@ =~= g3 + html_assertions(apref));
            }
            j = j + 1;
        }
        html.append("</div>");
        proof {
            assert(av.subrange(0, m as int) =~= av);
            assert(html@ =~= old(html)@ + html_result(self.results@[index as int]@));
        }
    }

    /// Renders the report, stamped with the current local time.
    pub fn generate_html_report(&self) -> (r: String)
        ensures
            exists|now: Seq<char>|
                r@ == html_report(self.suite_name@, now, self.results_view()),
    {
        let now = clock::local_timestamp();
        let r = self.render_html(now.as_str());
        proof {
            assert(r@ == html_report(self.suite_name@, now@, self.results_view()));
        }
        r
    }
}

/// Appends one assertion's block to the document.
#[verifier::rlimit(50)]
fn push_assertion_html(a: &AssertionResult, html: &mut String)
    ensures
        final(html)@ == old(html)@ + html_assertion(a@),
{
    html.append("<div class=\"assertion ");
    html.append(if a.passed {
        "pass"
    } else {
        "fail"
    });
    html.append("\">\n        <strong>");
    html.append(a.assertion.as_str());
    html.append("</strong>: ");
    html.append(if a.passed {
        "ok"
    } else {
        "failed"
    });
    html.append("\n        <div style=\"margin-top: 5px; color: #666;\">Expected: ");
    html.append(a.expected.as_str());
    html.append(" | Actual: ");
    html.append(a.actual.as_str());
    html.append("</div>\n    </div>");
    proof {
        reveal_strlit("pass");
        reveal_strlit("fail");
        assert(html@ =~= old(html)@ + html_assertion(a@));
    }
}

/// `x` clamped into `usize`.
pub open spec fn clamp_usize(x: int) -> int {
    if x > usize::MAX {
        usize::MAX as int
    } else {
        x
    }
}

proof fn lemma_count_passed_bound(s: Seq<TresV>)
    ensures
        0 <= count_passed(s) <= s.len(),
    decreases s.len(),
{
    if s.len() > 0 {
        lemma_count_passed_bound(s.drop_last());
    }
}

} // verus!
