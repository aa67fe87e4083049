//! The HTTP response as the library sees it: plain data handed in by the
//! transport collaborator.

use vstd::prelude::*;
use crate::text;

verus! {

/// What an HTTP exchange produced: status, headers, decoded body text, and
/// how long the exchange took, in milliseconds.
#[derive(Debug)]
pub struct HttpResponse {
    pub status: u16,
    pub headers: Vec<(String, String)>,
    pub body: String,
    pub duration_ms: u64,
}

/// The mathematical shape of a response.
#[verifier::ext_equal]
pub struct RespV {
    pub status: u16,
    pub headers: Seq<(Seq<char>, Seq<char>)>,
    pub body: Seq<char>,
    pub duration_ms: u64,
}

impl View for HttpResponse {
    type V = RespV;

    open spec fn view(&self) -> RespV {
        RespV {
            status: self.status,
            headers: self.headers@.map_values(|p: (String, String)| (p.0@, p.1@)),
            body: self.body@,
            duration_ms: self.duration_ms,
        }
    }
}

/// The first header whose name matches `name` up to ASCII case.
pub open spec fn header_lookup(headers: Seq<(Seq<char>, Seq<char>)>, name: Seq<char>) -> Option<
    Seq<char>,
>
    decreases headers.len(),
{
    if headers.len() == 0 {
        None
    } else if text::eq_ignore_case_spec(headers[0].0, name) {
        Some(headers[0].1)
    } else {
        header_lookup(headers.drop_first(), name)
    }
}

/// The first header whose name equals `name` exactly, case-sensitively.
pub open spec fn header_lookup_exact(
    headers: Seq<(Seq<char>, Seq<char>)>,
    name: Seq<char>,
) -> Option<Seq<char>>
    decreases headers.len(),
{
    if headers.len() == 0 {
        None
    } else if headers[0].0 == name {
        Some(headers[0].1)
    } else {
        header_lookup_exact(headers.drop_first(), name)
    }
}

impl HttpResponse {
    /// A response with the given status, headers and body, and no recorded
    /// duration.
    pub fn new(status: u16, headers: Vec<(String, String)>, body: String) -> (r: HttpResponse)
        ensures
            r.status == status,
            r@.headers == headers@.map_values(|p: (String, String)| (p.0@, p.1@)),
            r.body@ == body@,
            r.duration_ms == 0,
    {
        HttpResponse { status, headers, body, duration_ms: 0 }
    }

    /// This response with its duration set.
    pub fn with_duration(self, duration_ms: u64) -> (r: HttpResponse)
        ensures
            r@ == (RespV { duration_ms, ..self@ }),
    {
        HttpResponse { duration_ms, ..self }
    }

    /// The value of the first header matching `name`, ignoring ASCII case.
    ///
    /// This is the lookup the assertion engine uses; extraction looks
    /// names up case-sensitively instead.
    #[verifier::loop_isolation(false)]
    pub fn header<'a>(&'a self, name: &str) -> (r: Option<&'a str>)
        ensures
            match r {
                Some(v) => header_lookup(self@.headers, name@) == Some(v@),
                None => header_lookup(self@.headers, name@) is None,
            },
    {
        let n = self.headers.len();
        let mut i: usize = 0;
        proof {
            assert(self@.headers.subrange(0, n as int) =~= self@.headers);
        }
        while i < n
            invariant
                0 <= i <= n,
                header_lookup(self@.headers, name@) == header_lookup(
                    self@.headers.subrange(i as int, n as int),
                    name@,
                ),
            decreases n - i,
        {
            let ghost rest = self@.headers.subrange(i as int, n as int);
            proof {
                assert(rest.drop_first() =~= self@.headers.subrange(i + 1, n as int));
            }
            if text::eq_ignore_case(self.headers[i].0.as_str(), name) {
                return Some(self.headers[i].1.as_str());
            }
            i = i + 1;
        }
        None
    }

    /// The value of the first header whose name equals `name` exactly.
    #[verifier::loop_isolation(false)]
    pub fn header_exact<'a>(&'a self, name: &str) -> (r: Option<&'a str>)
        ensures
            match r {
                Some(v) => header_lookup_exact(self@.headers, name@) == Some(v@),
                None => header_lookup_exact(self@.headers, name@) is None,
            },
    {
        let n = self.headers.len();
        let mut i: usize = 0;
        proof {
            assert(self@.headers.subrange(0, n as int) =~= self@.headers);
        }
        while i < n
            invariant
                0 <= i <= n,
                header_lookup_exact(self@.headers, name@) == header_lookup_exact(
                    self@.headers.subrange(i as int, n as int),
                    name@,
                ),
            decreases n - i,
        {
            let ghost rest = self@.headers.subrange(i as int, n as int);
            proof {
                assert(rest.drop_first() =~= self@.headers.subrange(i + 1, n as int));
            }
            if text::str_eq(self.headers[i].0.as_str(), name) {
                return Some(self.headers[i].1.as_str());
            }
            i = i + 1;
        }
        None
    }

    /// Whether the status is in the 2xx range.
    pub fn is_success(&self) -> (r: bool)
        ensures
            r == (200 <= self.status < 300),
    {
        self.status >= 200 && self.status < 300
    }

    /// Whether the status is in the 4xx range.
    pub fn is_client_error(&self) -> (r: bool)
        ensures
            r == (400 <= self.status < 500),
    {
        self.status >= 400 && self.status < 500
    }

    /// Whether the status is in the 5xx range.
    pub fn is_server_error(&self) -> (r: bool)
        ensures
            r == (500 <= self.status < 600),
    {
        self.status >= 500 && self.status < 600
    }

    /// A copy of this response.
    #[verifier::loop_isolation(false)]
    pub fn duplicate(&self) -> (r: HttpResponse)
        ensures
            r@ == self@,
    {
        let n = self.headers.len();
        let mut headers: Vec<(String, String)> = Vec::new();
        let mut i: usize = 0;
        while i < n
            invariant
                0 <= i <= n,
                headers@.len() == i,
                forall|k: int|
                    #![all_triggers]
                    0 <= k < i ==> headers@[k].0@ == self.headers@[k].0@ && headers@[k].1@
                        == self.headers@[k].1@,
            decreases n - i,
        {
            headers.push((self.headers[i].0.clone(), self.headers[i].1.clone()));
            i = i + 1;
        }
        let r = HttpResponse {
            status: self.status,
            headers,
            body: self.body.clone(),
            duration_ms: self.duration_ms,
        };
        proof {
            assert(r@.headers =~= self@.headers);
            assert(r@ =~= self@);
        }
        r
    }
}

} // verus!
