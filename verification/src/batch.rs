//! Sequential batch execution of independent requests with aggregate
//! statistics.

use vstd::prelude::*;
use crate::clock;
use crate::error::Error;
use crate::request::RequestBuilder;
use crate::response::HttpResponse;
use crate::text;

verus! {

/// One request of a batch, with an identifier and free-form metadata.
#[derive(Debug)]
pub struct BatchRequest {
    pub id: String,
    pub request: RequestBuilder,
    pub metadata: Vec<(String, String)>,
}

impl BatchRequest {
    /// A batch request with an identifier.
    pub fn new(id: &str, request: RequestBuilder) -> (r: BatchRequest)
        ensures
            r.id@ == id@,
            r.request == request,
            r.metadata@.len() == 0,
    {
        BatchRequest { id: String::from_str(id), request, metadata: Vec::new() }
    }

    /// This request with one more metadata pair appended.
    pub fn with_metadata(self, key: &str, value: &str) -> (r: BatchRequest)
        ensures
            r.id@ == self.id@,
            r.request == self.request,
            r.metadata@.len() == self.metadata@.len() + 1,
            r.metadata@.last().0@ == key@ && r.metadata@.last().1@ == value@,
            forall|k: int| 0 <= k < self.metadata@.len() ==> r.metadata@[k] == self.metadata@[k],
    {
        let mut metadata = self.metadata;
        metadata.push((String::from_str(key), String::from_str(value)));
        BatchRequest { metadata, ..self }
    }

    /// The metadata value stored under `key`, if any.
    #[verifier::loop_isolation(false)]
    pub fn metadata_value<'a>(&'a self, key: &str) -> (r: Option<&'a String>)
        ensures
            r is Some ==> exists|k: int|
                0 <= k < self.metadata@.len() && (#[trigger] self.metadata@[k]).0@ == key@,
    {
        let n = self.metadata.len();
        let mut i: usize = 0;
        while i < n
            invariant
                0 <= i <= n,
            decreases n - i,
        {
            if text::str_eq(self.metadata[i].0.as_str(), key) {
                proof {
                    assert(self.metadata@[i as int].0@ == key@);
                }
                return Some(&self.metadata[i].1);
            }
            i = i + 1;
        }
        None
    }
}

/// The outcome of one batch request.
#[derive(Debug)]
pub struct BatchResponse {
    pub id: String,
    pub response: HttpResponse,
    pub success: bool,
    pub error: Option<String>,
}

/// Counts over a finished batch.
#[derive(Debug)]
pub struct BatchStats {
    pub total: usize,
    pub succeeded: usize,
    pub successful: usize,
    pub failed: usize,
    pub duration_ms: u64,
}

impl Default for BatchStats {
    fn default() -> (r: BatchStats)
        ensures
            r.total == 0 && r.succeeded == 0 && r.successful == 0 && r.failed == 0
                && r.duration_ms == 0,
    {
        BatchStats { total: 0, succeeded: 0, successful: 0, failed: 0, duration_ms: 0 }
    }
}

impl BatchStats {
    /// The share of 2xx responses as an exact fraction of a percent; an
    /// empty batch counts as zero.
    pub fn success_rate(&self) -> (r: (u128, u128))
        ensures
            self.total == 0 ==> r == (0u128, 1u128),
            self.total > 0 ==> r == ((self.succeeded * 100) as u128, self.total as u128),
    {
        if self.total == 0 {
            (0, 1)
        } else {
            ((self.succeeded as u128) * 100, self.total as u128)
        }
    }

    /// The share of transport failures as an exact fraction of a percent;
    /// an empty batch counts as zero.
    pub fn error_rate(&self) -> (r: (u128, u128))
        ensures
            self.total == 0 ==> r == (0u128, 1u128),
            self.total > 0 ==> r == ((self.failed * 100) as u128, self.total as u128),
    {
        if self.total == 0 {
            (0, 1)
        } else {
            ((self.failed as u128) * 100, self.total as u128)
        }
    }

    /// The mean wall time per request, in milliseconds; an empty batch
    /// counts as zero.
    pub fn avg_time_per_request(&self) -> (r: u64)
        ensures
            self.total == 0 ==> r == 0,
            self.total > 0 ==> r == self.duration_ms / (self.total as u64),
    {
        if self.total == 0 {
            0
        } else {
            self.duration_ms / (self.total as u64)
        }
    }
}

/// Ties one batch outcome to the injected transport: it keeps its
/// request's identifier, and is either a response the transport can
/// return for that very request, or the recovery of a failure it can
/// return, rendered through the error's own text.
pub open spec fn batch_outcome<F: Fn(&RequestBuilder) -> Result<HttpResponse, Error>>(
    client_fn: F,
    req: BatchRequest,
    out: BatchResponse,
) -> bool {
    &&& out.id@ == req.id@
    &&& match out.error {
        None => call_ensures(client_fn, (&req.request,), Ok::<HttpResponse, Error>(out.response))
            && out.success == (200 <= out.response.status < 300),
        Some(m) => !out.success && exists|e: Error|
            #[trigger] call_ensures(client_fn, (&req.request,), Err::<HttpResponse, Error>(e))
                && m@ == e.spec_prefix() + e.spec_message(),
    }
}

/// An ordered list of requests executed one after another.
#[derive(Debug)]
pub struct BatchExecutor {
    requests: Vec<BatchRequest>,
    max_concurrent: usize,
    stop_on_error: bool,
}

impl BatchExecutor {
    /// An empty batch; the concurrency bound is advisory for transports
    /// that pool connections.
    pub fn new(max_concurrent: usize) -> (r: BatchExecutor)
        ensures
            r.spec_requests().len() == 0,
            r.spec_stop_on_error() == false,
    {
        BatchExecutor { requests: Vec::new(), max_concurrent, stop_on_error: false }
    }

    /// The held requests.
    pub closed spec fn spec_requests(&self) -> Seq<BatchRequest> {
        self.requests@
    }

    /// Whether a failure stops the batch.
    pub closed spec fn spec_stop_on_error(&self) -> bool {
        self.stop_on_error
    }

    /// This batch with one more request.
    pub fn add_request(self, request: BatchRequest) -> (r: BatchExecutor)
        ensures
            r.spec_requests() == self.spec_requests().push(request),
            r.spec_stop_on_error() == self.spec_stop_on_error(),
    {
        let mut requests = self.requests;
        requests.push(request);
        BatchExecutor { requests, ..self }
    }

    /// This batch with a list of requests appended in order.
    #[verifier::loop_isolation(false)]
    pub fn add_requests(self, requests: Vec<BatchRequest>) -> (r: BatchExecutor)
        ensures
            r.spec_requests() == self.spec_requests() + requests@,
            r.spec_stop_on_error() == self.spec_stop_on_error(),
    {
        let mut held = self.requests;
        let mut rest = requests;
        let ghost all = rest@;
        let ghost base = held@;
        proof {
            assert(base + all.subrange(0, 0) =~= base);
        }
        while rest.len() > 0
            invariant
                rest@.len() <= all.len(),
                rest@ == all.subrange(all.len() - rest@.len(), all.len() as int),
                held@ == base + all.subrange(0, all.len() - rest@.len()),
            decreases rest@.len(),
        {
            let ghost done = all.len() - rest@.len();
            let one = rest.remove(0);
            held.push(one);
            proof {
                assert(rest@ =~= all.subrange(done + 1, all.len() as int));
                assert(held@ =~= base + all.subrange(0, done + 1));
            }
        }
        proof {
            assert(all.subrange(0, all.len() as int) =~= all);
        }
        BatchExecutor { requests: held, ..self }
    }

    /// This batch set to stop at the first transport failure.
    pub fn with_stop_on_error(self, stop: bool) -> (r: BatchExecutor)
        ensures
            r.spec_requests() == self.spec_requests(),
            r.spec_stop_on_error() == stop,
    {
        BatchExecutor { stop_on_error: stop, ..self }
    }

    /// How many requests the batch holds.
    pub fn request_count(&self) -> (r: usize)
        ensures
            r == self.spec_requests().len(),
    {
        self.requests.len()
    }

    /// Runs every request in order through the transport.  A transport
    /// failure contributes a failed outcome; with `stop_on_error` set it
    /// also ends the batch early.  Each outcome keeps its request's
    /// identifier and position.
    #[verifier::loop_isolation(false)]
    pub fn execute<F: Fn(&RequestBuilder) -> Result<HttpResponse, Error>>(
        &self,
        client_fn: F,
    ) -> (r: Result<BatchResult, Error>)
        requires
            forall|req: &RequestBuilder| #[trigger] call_requires(client_fn, (req,)),
        ensures
            r matches Ok(b) && {
                &&& b.responses@.len() <= self.spec_requests().len()
                &&& (!self.spec_stop_on_error() ==> b.responses@.len()
                    == self.spec_requests().len())
                &&& (b.responses@.len() < self.spec_requests().len() ==> self.spec_stop_on_error()
                    && b.responses@.len() > 0 && b.responses@.last().error is Some)
                &&& forall|i: int|
                    0 <= i < b.responses@.len() ==> batch_outcome(
                        client_fn,
                        self.spec_requests()[i],
                        #[trigger] b.responses@[i],
                    )
                &&& b.stats.total == b.responses@.len()
                &&& b.stats.succeeded <= b.stats.successful <= b.stats.total
                &&& b.stats.failed == b.stats.total - b.stats.successful
            },
    {
        let start = clock::now_millis();
        let mut responses: Vec<BatchResponse> = Vec::new();
        let mut succeeded: usize = 0;
        let mut successful: usize = 0;
        let mut failed: usize = 0;
        let n = self.requests.len();
        let mut i: usize = 0;
        let mut stopped = false;
        while i < n && !stopped
            invariant
                0 <= i <= n,
                n == self.requests@.len(),
                responses@.len() == i,
                stopped ==> self.spec_stop_on_error() && responses@.len() > 0
                    && responses@.last().error is Some,
                forall|k: int|
                    0 <= k < responses@.len() ==> batch_outcome(
                        client_fn,
                        self.requests@[k],
                        #[trigger] responses@[k],
                    ),
                succeeded <= successful <= responses@.len(),
                failed == responses@.len() - successful,
                forall|req: &RequestBuilder| #[trigger] call_requires(client_fn, (req,)),
            decreases n - i,
        {
            let batch_req = &self.requests[i];
            match client_fn(&batch_req.request) {
                Ok(response) => {
                    let success = response.is_success();
                    responses.push(
                        BatchResponse {
                            id: batch_req.id.clone(),
                            response,
                            success,
                            error: None,
                        },
                    );
                    successful = successful + 1;
                    if success {
                        succeeded = succeeded + 1;
                    }
                    proof {
                        assert(responses@.last().response == response);
                        assert(batch_outcome(
                            client_fn,
                            self.requests@[i as int],
                            responses@.last(),
                        ));
                    }
                },
                Err(e) => {
                    responses.push(
                        BatchResponse {
                            id: batch_req.id.clone(),
                            response: HttpResponse::new(0, Vec::new(), String::new()),
                            success: false,
                            error: Some(e.describe()),
                        },
                    );
                    failed = failed + 1;
                    if self.stop_on_error {
                        stopped = true;
                    }
                    proof {
                        assert(batch_outcome(
                            client_fn,
                            self.requests@[i as int],
                            responses@.last(),
                        ));
                    }
                },
            }
            i = i + 1;
        }
        let end = clock::now_millis();
        let total = responses.len();
        let stats = BatchStats {
            total,
            succeeded,
            successful,
            failed,
            duration_ms: end.saturating_sub(start),
        };
        Ok(BatchResult { responses, stats })
    }
}

impl Default for BatchExecutor {
    fn default() -> (r: BatchExecutor)
        ensures
            r.spec_requests().len() == 0,
            r.spec_stop_on_error() == false,
    {
        Self::new(10)
    }
}

/// A finished batch: per-request outcomes and the aggregate counts.
#[derive(Debug)]
pub struct BatchResult {
    pub responses: Vec<BatchResponse>,
    pub stats: BatchStats,
}

impl BatchResult {
    /// The first outcome with the given identifier, if any.
    #[verifier::loop_isolation(false)]
    pub fn get_response<'a>(&'a self, id: &str) -> (r: Option<&'a BatchResponse>)
        ensures
            match r {
                Some(b) => exists|i: int|
                    0 <= i < self.responses@.len() && (#[trigger] self.responses@[i]).id@ == id@
                        && b == &self.responses@[i],
                None => forall|i: int|
                    0 <= i < self.responses@.len() ==> (#[trigger] self.responses@[i]).id@ != id@,
            },
    {
        let n = self.responses.len();
        let mut i: usize = 0;
        while i < n
            invariant
                0 <= i <= n,
                forall|k: int| 0 <= k < i ==> (#[trigger] self.responses@[k]).id@ != id@,
            decreases n - i,
        {
            if text::str_eq(self.responses[i].id.as_str(), id) {
                proof {
                    assert(self.responses@[i as int].id@ == id@);
                }
                return Some(&self.responses[i]);
            }
            i = i + 1;
        }
        None
    }

    /// The outcomes that carried a 2xx response, in order.
    #[verifier::loop_isolation(false)]
    pub fn get_all_successful<'a>(&'a self) -> (r: Vec<&'a BatchResponse>)
        ensures
            r@.map_values(|b: &BatchResponse| *b) == filter_outcomes(self.responses@, true),
    {
        let n = self.responses.len();
        let mut out: Vec<&BatchResponse> = Vec::new();
        let mut i: usize = 0;
        proof {
            assert(filter_outcomes(self.responses@.subrange(0, 0), true) =~= out@.map_values(
                |b: &BatchResponse| *b,
            ));
        }
        while i < n
            invariant
                0 <= i <= n,
                n == self.responses@.len(),
                filter_outcomes(self.responses@.subrange(0, i as int), true) =~= out@.map_values(
                    |b: &BatchResponse| *b,
                ),
            decreases n - i,
        {
            let ghost pref = self.responses@.subrange(0, i + 1);
            proof {
                assert(pref.drop_last() =~= self.responses@.subrange(0, i as int));
                assert(pref.last() == self.responses@[i as int]);
            }
            if self.responses[i].success {
                out.push(&self.responses[i]);
            }
            proof {
                assert(filter_outcomes(self.responses@.subrange(0, i + 1), true)
                    =~= out@.map_values(|b: &BatchResponse| *b));
            }
            i = i + 1;
        }
        proof {
            assert(self.responses@.subrange(0, n as int) =~= self.responses@);
        }
        out
    }

    /// The outcomes that failed or carried a non-2xx response, in order.
    #[verifier::loop_isolation(false)]
    pub fn get_all_failed<'a>(&'a self) -> (r: Vec<&'a BatchResponse>)
        ensures
            r@.map_values(|b: &BatchResponse| *b) == filter_outcomes(self.responses@, false),
    {
        let n = self.responses.len();
        let mut out: Vec<&BatchResponse> = Vec::new();
        let mut i: usize = 0;
        proof {
            assert(filter_outcomes(self.responses@.subrange(0, 0), false) =~= out@.map_values(
                |b: &BatchResponse| *b,
            ));
        }
        while i < n
            invariant
                0 <= i <= n,
                n == self.responses@.len(),
                filter_outcomes(self.responses@.subrange(0, i as int), false)
                    =~= out@.map_values(|b: &BatchResponse| *b),
            decreases n - i,
        {
            let ghost pref = self.responses@.subrange(0, i + 1);
            proof {
                assert(pref.drop_last() =~= self.responses@.subrange(0, i as int));
                assert(pref.last() == self.responses@[i as int]);
            }
            if !self.responses[i].success {
                out.push(&self.responses[i]);
            }
            proof {
                assert(filter_outcomes(self.responses@.subrange(0, i + 1), false)
                    =~= out@.map_values(|b: &BatchResponse| *b));
            }
            i = i + 1;
        }
        proof {
            assert(self.responses@.subrange(0, n as int) =~= self.responses@);
        }
        out
    }
}

/// The outcomes whose success flag has the wanted value, kept in order.
pub open spec fn filter_outcomes(s: Seq<BatchResponse>, wanted: bool) -> Seq<BatchResponse>
    decreases s.len(),
{
    if s.len() == 0 {
        Seq::empty()
    } else {
        let rest = filter_outcomes(s.drop_last(), wanted);
        if s.last().success == wanted {
            rest.push(s.last())
        } else {
            rest
        }
    }
}

} // verus!
