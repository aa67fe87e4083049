//! Executes test cases against an injected transport and aggregates the
//! outcomes.
//!
//! The transport is any function from a request and a timeout to a response
//! or an error; suites run strictly in order, while the parallel runner
//! fans the cases out to independent threads and collects one result per
//! case whatever happens to the others.

use vstd::prelude::*;
use crate::assertions::{assert_response, asrt_passes, AsrtV};
use crate::clock;
use crate::error::Error;
use crate::response::{HttpResponse, RespV};
use crate::suite::{TcV, TestCase, TestReport, TestRequest, TestResult, TestSuite,
    TresV};
use crate::text;

verus! {

/// Whether the runner knows how to send a request with this method.
pub open spec fn method_known(m: Seq<char>) -> bool {
    ||| m == "GET"@
    ||| m == "POST"@
    ||| m == "PUT"@
    ||| m == "DELETE"@
    ||| m == "PATCH"@
    ||| m == "HEAD"@
    ||| m == "OPTIONS"@
}

fn method_known_exec(m: &str) -> (r: bool)
    ensures
        r == method_known(m@),
{
    text::str_eq(m, "GET") || text::str_eq(m, "POST") || text::str_eq(m, "PUT") || text::str_eq(
        m,
        "DELETE",
    ) || text::str_eq(m, "PATCH") || text::str_eq(m, "HEAD") || text::str_eq(m, "OPTIONS")
}

/// How many of the assertions pass against one response.
pub open spec fn count_passing(rv: RespV, assertions: Seq<AsrtV>) -> int
    decreases assertions.len(),
{
    if assertions.len() == 0 {
        0
    } else {
        count_passing(rv, assertions.drop_last()) + if asrt_passes(rv, assertions.last()) {
            1int
        } else {
            0int
        }
    }
}

/// Whether a result records exactly the evaluation of `assertions`
/// against the single response `rv`.
pub open spec fn eval_ok(rv: RespV, assertions: Seq<AsrtV>, res: TresV) -> bool {
    &&& res.assertions_total == assertions.len()
    &&& res.assertion_results.len() == assertions.len()
    &&& (forall|i: int|
        0 <= i < assertions.len() ==> (#[trigger] res.assertion_results[i]).passed == asrt_passes(
            rv,
            assertions[i],
        ))
    &&& res.assertions_passed == count_passing(rv, assertions)
    &&& res.passed == (forall|i: int|
        0 <= i < assertions.len() ==> asrt_passes(rv, #[trigger] assertions[i]))
}

/// Whether a result is a faithful outcome for a case: it carries the
/// case's name, and either a top-level error with nothing evaluated, or
/// the exact evaluation of every assertion against one response.
pub open spec fn result_matches_case(case: TcV, res: TresV) -> bool {
    &&& res.test_name == case.name
    &&& match res.error {
        Some(_) => !res.passed && res.assertions_total == 0 && res.assertions_passed == 0
            && res.assertion_results.len() == 0,
        None => exists|rv: RespV| eval_ok(rv, case.assertions, res),
    }
}

/// What a recovered transport failure leaves behind: the failure's message
/// under a fixed prefix, a failed verdict, and nothing evaluated.
pub open spec fn failed_outcome(e: Error, res: TresV) -> bool {
    &&& res.error == Some("Request failed: "@ + e.spec_prefix() + e.spec_message())
    &&& !res.passed
    &&& res.assertions_total == 0
    &&& res.assertions_passed == 0
    &&& res.assertion_results.len() == 0
}

/// Ties one case's result to the injected transport: an unknown method is
/// rejected before any call; otherwise the result is either the exact
/// evaluation against a response the transport can return for this very
/// request and timeout, or the recovery of a failure the transport can
/// return for them.  A transport whose contract never fails therefore
/// forces an error-free, fully evaluated result.
pub open spec fn transport_outcome<F: Fn(&TestRequest, u64) -> Result<HttpResponse, Error>>(
    transport: F,
    case: TestCase,
    res: TresV,
) -> bool {
    if !method_known(case@.request.method) {
        res.error == Some("Unknown HTTP method: "@ + case@.request.method)
    } else {
        ||| (exists|resp: HttpResponse|
            #[trigger] call_ensures(
                transport,
                (&case.request, case.timeout_ms),
                Ok::<HttpResponse, Error>(resp),
            ) && res.error is None && eval_ok(resp@, case@.assertions, res))
        ||| (exists|e: Error|
            #[trigger] call_ensures(
                transport,
                (&case.request, case.timeout_ms),
                Err::<HttpResponse, Error>(e),
            ) && failed_outcome(e, res))
    }
}

/// Finished results kept around by name.
#[derive(Debug)]
pub struct TestResultCache {
    results: Vec<(String, TestResult)>,
}

/// The most recent result stored under `k`, if any.
pub open spec fn cached_result(s: Seq<(Seq<char>, TresV)>, k: Seq<char>) -> Option<TresV>
    decreases s.len(),
{
    if s.len() == 0 {
        None
    } else if s.last().0 == k {
        Some(s.last().1)
    } else {
        cached_result(s.drop_last(), k)
    }
}

impl View for TestResultCache {
    type V = Seq<(Seq<char>, TresV)>;

    closed spec fn view(&self) -> Seq<(Seq<char>, TresV)> {
        self.results@.map_values(|p: (String, TestResult)| (p.0@, p.1@))
    }
}

impl TestResultCache {
    /// An empty cache.
    pub fn new() -> (r: TestResultCache)
        ensures
            r@ == Seq::<(Seq<char>, TresV)>::empty(),
    {
        let r = TestResultCache { results: Vec::new() };
        proof {
            assert(r@ =~= Seq::<(Seq<char>, TresV)>::empty());
        }
        r
    }

    /// Stores a result under a key, alongside any earlier entries.
    pub fn insert(&mut self, key: String, result: TestResult)
        ensures
            final(self)@ == old(self)@.push((key@, result@)),
    {
        let ghost before = self@;
        self.results.push((key, result));
        proof {
            assert(final(self)@ =~= before.push(
                (self.results@.last().0@, self.results@.last().1@),
            ));
        }
    }

    /// The most recently stored result under `key`, if any.
    #[verifier::loop_isolation(false)]
    pub fn get<'a>(&'a self, key: &str) -> (r: Option<&'a TestResult>)
        ensures
            match r {
                Some(res) => cached_result(self@, key@) == Some(res@),
                None => cached_result(self@, key@) is None,
            },
    {
        let mut i = self.results.len();
        proof {
            assert(self@.subrange(0, i as int) =~= self@);
        }
        while i > 0
            invariant
                0 <= i <= self.results@.len(),
                cached_result(self@, key@) == cached_result(self@.subrange(0, i as int), key@),
            decreases i,
        {
            let ghost pref = self@.subrange(0, i as int);
            proof {
                assert(pref.drop_last() =~= self@.subrange(0, i - 1));
                assert(pref.last() == (self.results@[i - 1].0@, self.results@[i - 1].1@));
            }
            if text::str_eq(self.results[i - 1].0.as_str(), key) {
                return Some(&self.results[i - 1].1);
            }
            i = i - 1;
        }
        proof {
            assert(self@.subrange(0, 0) =~= Seq::<(Seq<char>, TresV)>::empty());
        }
        None
    }

    /// Removes every entry.
    pub fn clear(&mut self)
        ensures
            final(self)@ == Seq::<(Seq<char>, TresV)>::empty(),
    {
        self.results = Vec::new();
        proof {
            assert(final(self)@ =~= Seq::<(Seq<char>, TresV)>::empty());
        }
    }
}

/// Runs test cases against a transport collaborator.
#[derive(Debug)]
pub struct TestRunner {
    pub cache: TestResultCache,
}

impl TestRunner {
    /// A fresh runner.
    pub fn fresh() -> (r: TestRunner)
        ensures
            r.cache@ == Seq::<(Seq<char>, TresV)>::empty(),
    {
        TestRunner { cache: TestResultCache::new() }
    }

    /// A fresh runner; never fails, the `Result` mirrors construction of
    /// runners that own fallible resources.
    pub fn new() -> (r: Result<TestRunner, Error>)
        ensures
            r matches Ok(runner) && runner.cache@ == Seq::<(Seq<char>, TresV)>::empty(),
    {
        Ok(TestRunner::fresh())
    }

    /// Empties the result cache.
    pub fn clear_cache(&mut self)
        ensures
            final(self).cache@ == Seq::<(Seq<char>, TresV)>::empty(),
    {
        self.cache.clear();
    }

    /// Runs one test case: sends its request once through the transport
    /// and evaluates every assertion in order against the response.
    ///
    /// A transport failure or an unknown method yields a failed result
    /// with a top-level error and nothing evaluated; it never propagates.
    #[verifier::loop_isolation(false)]
    pub fn run_test<F: Fn(&TestRequest, u64) -> Result<HttpResponse, Error>>(
        &self,
        test: &TestCase,
        transport: &F,
    ) -> (r: TestResult)
        requires
            forall|req: &TestRequest, t: u64| #[trigger] call_requires(*transport, (req, t)),
        ensures
            result_matches_case(test@, r@),
            transport_outcome(*transport, *test, r@),
    {
        let start = clock::now_millis();
        let mut result = TestResult::new(test.name.clone());
        if !method_known_exec(test.request.method.as_str()) {
            let mut msg = String::from_str("Unknown HTTP method: ");
            msg.append(test.request.method.as_str());
            result.set_error(msg);
            let end = clock::now_millis();
            result.set_duration(end.saturating_sub(start));
            return result;
        }
        match transport(&test.request, test.timeout_ms) {
            Ok(response) => {
                let n = test.assertions.len();
                let mut i: usize = 0;
                proof {
                    assert(test@.assertions.subrange(0, 0) =~= Seq::<AsrtV>::empty());
                }
                while i < n
                    invariant
                        0 <= i <= n,
                        n == test.assertions@.len(),
                        result.test_name@ == test@.name,
                        result.error is None,
                        result.assertions_total == i,
                        result.assertions_passed <= i,
                        result@.assertion_results.len() == i,
                        forall|k: int|
                            0 <= k < i ==> (#[trigger] result@.assertion_results[k]).passed
                                == asrt_passes(response@, test@.assertions[k]),
                        result.assertions_passed == count_passing(
                            response@,
                            test@.assertions.subrange(0, i as int),
                        ),
                        result.passed == (forall|k: int|
                            0 <= k < i ==> asrt_passes(response@, #[trigger] test@.assertions[k])),
                    decreases n - i,
                {
                    let ghost pref = test@.assertions.subrange(0, i + 1);
                    proof {
                        assert(pref.drop_last() =~= test@.assertions.subrange(0, i as int));
                        assert(pref.last() == test@.assertions[i as int]);
                    }
                    let ares = assert_response(&response, &test.assertions[i]);
                    result.add_assertion_result(ares);
                    i = i + 1;
                }
                proof {
                    assert(test@.assertions.subrange(0, n as int) =~= test@.assertions);
                }
                let end = clock::now_millis();
                result.set_duration(end.saturating_sub(start));
                proof {
                    assert(eval_ok(response@, test@.assertions, result@));
                    assert(call_ensures(
                        *transport,
                        (&test.request, test.timeout_ms),
                        Ok::<HttpResponse, Error>(response),
                    ));
                    assert(transport_outcome(*transport, *test, result@));
                }
                result
            },
            Err(e) => {
                let mut msg = String::from_str("Request failed: ");
                let described = e.describe();
                msg.append(described.as_str());
                result.set_error(msg);
                let end = clock::now_millis();
                result.set_duration(end.saturating_sub(start));
                proof {
                    assert(msg@ =~= "Request failed: "@ + e.spec_prefix() + e.spec_message());
                    assert(failed_outcome(e, result@));
                    assert(call_ensures(
                        *transport,
                        (&test.request, test.timeout_ms),
                        Err::<HttpResponse, Error>(e),
                    ));
                    assert(transport_outcome(*transport, *test, result@));
                }
                result
            },
        }
    }

    /// Runs every case of a suite strictly in order and aggregates the
    /// results into a report in that same order.
    #[verifier::loop_isolation(false)]
    pub fn run_suite<F: Fn(&TestRequest, u64) -> Result<HttpResponse, Error>>(
        &mut self,
        suite: &TestSuite,
        transport: &F,
    ) -> (r: Result<TestReport, Error>)
        requires
            forall|req: &TestRequest, t: u64| #[trigger] call_requires(*transport, (req, t)),
        ensures
            r matches Ok(report) && {
                &&& report.suite_name@ == suite.name@
                &&& report.results@.len() == suite.test_cases@.len()
                &&& forall|i: int|
                    0 <= i < suite.test_cases@.len() ==> result_matches_case(
                        suite.test_cases@[i]@,
                        #[trigger] report.results@[i]@,
                    )
                &&& forall|i: int|
                    0 <= i < suite.test_cases@.len() ==> transport_outcome(
                        *transport,
                        suite.test_cases@[i],
                        #[trigger] report.results@[i]@,
                    )
            },
    {
        let mut report = TestReport::new(suite.name.clone());
        let n = suite.test_cases.len();
        let mut i: usize = 0;
        while i < n
            invariant
                0 <= i <= n,
                n == suite.test_cases@.len(),
                report.suite_name@ == suite.name@,
                report.results@.len() == i,
                forall|k: int|
                    0 <= k < i ==> result_matches_case(
                        suite.test_cases@[k]@,
                        #[trigger] report.results@[k]@,
                    ),
                forall|k: int|
                    0 <= k < i ==> transport_outcome(
                        *transport,
                        suite.test_cases@[k],
                        #[trigger] report.results@[k]@,
                    ),
                forall|req: &TestRequest, t: u64| #[trigger] call_requires(*transport, (req, t)),
            decreases n - i,
        {
            let result = self.run_test(&suite.test_cases[i], transport);
            report.add_result(result);
            i = i + 1;
        }
        report.finalize();
        Ok(report)
    }

    /// The cases carrying the given tag, in input order.
    #[verifier::loop_isolation(false)]
    pub fn filter_by_tag(&self, tests: &Vec<TestCase>, tag: &str) -> (r: Vec<TestCase>)
        ensures
            r@.map_values(|c: TestCase| c@) == filter_tag_spec(
                tests@.map_values(|c: TestCase| c@),
                tag@,
            ),
    {
        let n = tests.len();
        let mut out: Vec<TestCase> = Vec::new();
        let mut i: usize = 0;
        proof {
            assert(filter_tag_spec(
                tests@.map_values(|c: TestCase| c@).subrange(0, 0),
                tag@,
            ) =~= out@.map_values(|c: TestCase| c@));
        }
        while i < n
            invariant
                0 <= i <= n,
                n == tests@.len(),
                out@.map_values(|c: TestCase| c@) =~= filter_tag_spec(
                    tests@.map_values(|c: TestCase| c@).subrange(0, i as int),
                    tag@,
                ),
            decreases n - i,
        {
            let ghost pref = tests@.map_values(|c: TestCase| c@).subrange(0, i + 1);
            proof {
                assert(pref.drop_last() =~= tests@.map_values(|c: TestCase| c@).subrange(
                    0,
                    i as int,
                ));
                assert(pref.last() == tests@[i as int]@);
            }
            if tests[i].has_tag(tag) {
                out.push(tests[i].duplicate());
            }
            proof {
                assert(out@.map_values(|c: TestCase| c@) =~= filter_tag_spec(pref, tag@));
            }
            i = i + 1;
        }
        proof {
            assert(tests@.map_values(|c: TestCase| c@).subrange(0, n as int) =~= tests@.map_values(
                |c: TestCase| c@,
            ));
        }
        out
    }

    /// The cases whose name contains the given text, in input order.
    #[verifier::loop_isolation(false)]
    pub fn filter_by_name(&self, tests: &Vec<TestCase>, pattern: &str) -> (r: Vec<TestCase>)
        ensures
            r@.map_values(|c: TestCase| c@) == filter_name_spec(
                tests@.map_values(|c: TestCase| c@),
                pattern@,
            ),
    {
        let n = tests.len();
        let mut out: Vec<TestCase> = Vec::new();
        let mut i: usize = 0;
        proof {
            assert(filter_name_spec(
                tests@.map_values(|c: TestCase| c@).subrange(0, 0),
                pattern@,
            ) =~= out@.map_values(|c: TestCase| c@));
        }
        while i < n
            invariant
                0 <= i <= n,
                n == tests@.len(),
                out@.map_values(|c: TestCase| c@) =~= filter_name_spec(
                    tests@.map_values(|c: TestCase| c@).subrange(0, i as int),
                    pattern@,
                ),
            decreases n - i,
        {
            let ghost pref = tests@.map_values(|c: TestCase| c@).subrange(0, i + 1);
            proof {
                assert(pref.drop_last() =~= tests@.map_values(|c: TestCase| c@).subrange(
                    0,
                    i as int,
                ));
                assert(pref.last() == tests@[i as int]@);
            }
            if text::contains_str(tests[i].name.as_str(), pattern) {
                out.push(tests[i].duplicate());
            }
            proof {
                assert(out@.map_values(|c: TestCase| c@) =~= filter_name_spec(pref, pattern@));
            }
            i = i + 1;
        }
        proof {
            assert(tests@.map_values(|c: TestCase| c@).subrange(0, n as int) =~= tests@.map_values(
                |c: TestCase| c@,
            ));
        }
        out
    }
}

/// The cases of `s` carrying `tag`, kept in order.
pub open spec fn filter_tag_spec(s: Seq<TcV>, tag: Seq<char>) -> Seq<TcV>
    decreases s.len(),
{
    if s.len() == 0 {
        Seq::empty()
    } else {
        let rest = filter_tag_spec(s.drop_last(), tag);
        if s.last().tags.contains(tag) {
            rest.push(s.last())
        } else {
            rest
        }
    }
}

/// The cases of `s` whose name contains `pattern`, kept in order.
pub open spec fn filter_name_spec(s: Seq<TcV>, pattern: Seq<char>) -> Seq<TcV>
    decreases s.len(),
{
    if s.len() == 0 {
        Seq::empty()
    } else {
        let rest = filter_name_spec(s.drop_last(), pattern);
        if text::contains_sub(s.last().name, pattern) {
            rest.push(s.last())
        } else {
            rest
        }
    }
}

/// When no parallel result carries an error, the results' names are the
/// cases' names, position by position, and so the same multiset of names
/// comes back whatever order the results arrive in.
pub proof fn lemma_parallel_names(cases: Seq<TcV>, results: Seq<TresV>)
    requires
        cases.len() == results.len(),
        forall|i: int|
            0 <= i < cases.len() ==> result_matches_case(cases[i], #[trigger] results[i]) || (
            results[i].error is Some && !results[i].passed),
        forall|i: int| 0 <= i < results.len() ==> (#[trigger] results[i]).error is None,
    ensures
        forall|i: int| 0 <= i < results.len() ==> (#[trigger] results[i]).test_name == cases[i].name,
        results.map_values(|r: TresV| r.test_name).to_multiset() == cases.map_values(
            |c: TcV| c.name,
        ).to_multiset(),
{
    assert forall|i: int| 0 <= i < results.len() implies (#[trigger] results[i]).test_name
        == cases[i].name by {
        assert(result_matches_case(cases[i], results[i]));
    }
    assert(results.map_values(|r: TresV| r.test_name) =~= cases.map_values(|c: TcV| c.name));
}

} // verus!
