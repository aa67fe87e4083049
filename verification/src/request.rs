//! Request construction: bodies, the fluent builder, and client settings.

use vstd::prelude::*;
use crate::auth::{auth_valid, Auth};
use crate::compression::CompressionConfig;
use crate::error::Error;
use crate::json::{json_text, JsonValue};
use crate::security::{ProxyConfig, TlsConfig};
use crate::text;

verus! {

/// The URL-encoded form of a list of key-value pairs; a pure function of
/// the pairs.
pub uninterp spec fn form_encoding(pairs: Seq<(Seq<char>, Seq<char>)>) -> Seq<char>;

/// Encodes key-value pairs as `application/x-www-form-urlencoded`.
///
/// Relies on `serde_urlencoded::to_string`: the encoding depends on the
/// pairs alone.
#[verifier::external_body]
fn urlencode_pairs(pairs: &Vec<(String, String)>) -> (r: Result<String, String>)
    ensures
        r matches Ok(s) ==> s@ == form_encoding(
            pairs@.map_values(|p: (String, String)| (p.0@, p.1@)),
        ),
{
    match serde_urlencoded::to_string(pairs) {
        Ok(s) => Ok(s),
        Err(e) => Err(e.to_string()),
    }
}

/// A request body in one of the shapes the library can send.
#[derive(Debug)]
pub enum RequestBody {
    Json(JsonValue),
    Form(Vec<(String, String)>),
    Text(String),
    Binary(Vec<u8>),
}

impl RequestBody {
    /// The bytes this body puts on the wire.
    pub fn to_bytes(&self) -> (r: Result<Vec<u8>, Error>)
        ensures
            match r {
                Ok(bytes) => match self {
                    RequestBody::Json(v) => bytes@ == vstd::utf8::encode_utf8(json_text(*v)),
                    RequestBody::Form(f) => bytes@ == vstd::utf8::encode_utf8(
                        form_encoding(f@.map_values(|p: (String, String)| (p.0@, p.1@))),
                    ),
                    RequestBody::Text(t) => bytes@ == vstd::utf8::encode_utf8(t@),
                    RequestBody::Binary(b) => bytes@ == b@,
                },
                Err(e) => self is Form && e is Http,
            },
    {
        match self {
            RequestBody::Json(v) => {
                let s = crate::json::to_json_text(v);
                Ok(s.as_str().as_bytes_vec())
            },
            RequestBody::Form(f) => match urlencode_pairs(f) {
                Ok(s) => Ok(s.as_str().as_bytes_vec()),
                Err(e) => {
                    let mut msg = String::from_str("Form: ");
                    msg.append(e.as_str());
                    Err(Error::Http(msg))
                },
            },
            RequestBody::Text(t) => Ok(t.as_str().as_bytes_vec()),
            RequestBody::Binary(b) => {
                let n = b.len();
                let mut out: Vec<u8> = Vec::new();
                let mut i: usize = 0;
                while i < n
                    invariant
                        0 <= i <= n,
                        n == b@.len(),
                        out@ =~= b@.subrange(0, i as int),
                    decreases n - i,
                {
                    out.push(b[i]);
                    proof {
                        assert(out@ =~= b@.subrange(0, i + 1));
                    }
                    i = i + 1;
                }
                proof {
                    assert(b@.subrange(0, n as int) =~= b@);
                }
                Ok(out)
            },
        }
    }

    /// The `Content-Type` each body shape declares.
    pub fn content_type(&self) -> (r: &'static str)
        ensures
            r@ == match self {
                RequestBody::Json(_) => "application/json"@,
                RequestBody::Form(_) => "application/x-www-form-urlencoded"@,
                RequestBody::Text(_) => "text/plain"@,
                RequestBody::Binary(_) => "application/octet-stream"@,
            },
    {
        match self {
            RequestBody::Json(_) => "application/json",
            RequestBody::Form(_) => "application/x-www-form-urlencoded",
            RequestBody::Text(_) => "text/plain",
            RequestBody::Binary(_) => "application/octet-stream",
        }
    }
}

/// The pairs with every pair keyed `k` removed.
pub open spec fn drop_pair(s: Seq<(Seq<char>, Seq<char>)>, k: Seq<char>) -> Seq<
    (Seq<char>, Seq<char>),
>
    decreases s.len(),
{
    if s.len() == 0 {
        Seq::empty()
    } else {
        let rest = drop_pair(s.drop_last(), k);
        if s.last().0 == k {
            rest
        } else {
            rest.push(s.last())
        }
    }
}

/// Replaces the pair keyed `name` by `(name, value)`, appending it last.
#[verifier::loop_isolation(false)]
fn upsert_pair(pairs: &mut Vec<(String, String)>, name: String, value: String)
    ensures
        final(pairs)@.map_values(|p: (String, String)| (p.0@, p.1@)) == drop_pair(
            old(pairs)@.map_values(|p: (String, String)| (p.0@, p.1@)),
            name@,
        ).push((name@, value@)),
{
    let ghost all = old(pairs)@.map_values(|p: (String, String)| (p.0@, p.1@));
    let n = pairs.len();
    let mut kept: Vec<(String, String)> = Vec::new();
    let mut i: usize = 0;
    proof {
        assert(all.subrange(0, 0) =~= Seq::<(Seq<char>, Seq<char>)>::empty());
        assert(drop_pair(all.subrange(0, 0), name@) =~= kept@.map_values(
            |p: (String, String)| (p.0@, p.1@),
        ));
    }
    while i < n
        invariant
            0 <= i <= n,
            n == pairs@.len(),
            pairs == old(pairs),
            drop_pair(all.subrange(0, i as int), name@) =~= kept@.map_values(
                |p: (String, String)| (p.0@, p.1@),
            ),
        decreases n - i,
    {
        let ghost pref = all.subrange(0, i + 1);
        proof {
            assert(pref.drop_last() =~= all.subrange(0, i as int));
            assert(pref.last() == (pairs@[i as int].0@, pairs@[i as int].1@));
        }
        if !text::str_eq(pairs[i].0.as_str(), name.as_str()) {
            kept.push((pairs[i].0.clone(), pairs[i].1.clone()));
        }
        proof {
            assert(drop_pair(all.subrange(0, i + 1), name@) =~= kept@.map_values(
                |p: (String, String)| (p.0@, p.1@),
            ));
        }
        i = i + 1;
    }
    kept.push((name, value));
    *pairs = kept;
    proof {
        assert(all.subrange(0, n as int) =~= all);
        assert(final(pairs)@.map_values(|p: (String, String)| (p.0@, p.1@)) =~= drop_pair(
            all,
            name@,
        ).push((final(pairs)@.last().0@, final(pairs)@.last().1@)));
    }
}

/// Builds one HTTP request: URL, method, headers, query, body, auth and
/// timeout.
#[derive(Debug)]
pub struct RequestBuilder {
    pub url: String,
    pub method: String,
    pub headers_map: Vec<(String, String)>,
    pub query_params: Vec<(String, String)>,
    pub body_data: Option<RequestBody>,
    pub auth_data: Auth,
    pub request_timeout_ms: u64,
}

impl RequestBuilder {
    /// A bare request with a URL and method, thirty-second timeout.
    pub fn new(url: &str, method: &str) -> (r: RequestBuilder)
        ensures
            r.url@ == url@,
            r.method@ == method@,
            r.headers_map@.len() == 0,
            r.query_params@.len() == 0,
            r.body_data is None,
            r.auth_data is Anonymous,
            r.request_timeout_ms == 30000,
    {
        RequestBuilder {
            url: String::from_str(url),
            method: String::from_str(method),
            headers_map: Vec::new(),
            query_params: Vec::new(),
            body_data: None,
            auth_data: Auth::Anonymous,
            request_timeout_ms: 30000,
        }
    }

    /// A GET request.
    pub fn get(url: &str) -> (r: RequestBuilder)
        ensures
            r.url@ == url@ && r.method@ == "GET"@ && r.headers_map@.len() == 0
                && r.query_params@.len() == 0 && r.body_data is None
                && r.auth_data is Anonymous && r.request_timeout_ms == 30000,
    {
        Self::new(url, "GET")
    }

    /// A POST request.
    pub fn post(url: &str) -> (r: RequestBuilder)
        ensures
            r.url@ == url@ && r.method@ == "POST"@ && r.body_data is None
                && r.auth_data is Anonymous,
    {
        Self::new(url, "POST")
    }

    /// A PUT request.
    pub fn put(url: &str) -> (r: RequestBuilder)
        ensures
            r.url@ == url@ && r.method@ == "PUT"@,
    {
        Self::new(url, "PUT")
    }

    /// A DELETE request.
    pub fn delete(url: &str) -> (r: RequestBuilder)
        ensures
            r.url@ == url@ && r.method@ == "DELETE"@,
    {
        Self::new(url, "DELETE")
    }

    /// A PATCH request.
    pub fn patch(url: &str) -> (r: RequestBuilder)
        ensures
            r.url@ == url@ && r.method@ == "PATCH"@,
    {
        Self::new(url, "PATCH")
    }

    /// A HEAD request.
    pub fn head(url: &str) -> (r: RequestBuilder)
        ensures
            r.url@ == url@ && r.method@ == "HEAD"@,
    {
        Self::new(url, "HEAD")
    }

    /// An OPTIONS request.
    pub fn options(url: &str) -> (r: RequestBuilder)
        ensures
            r.url@ == url@ && r.method@ == "OPTIONS"@,
    {
        Self::new(url, "OPTIONS")
    }

    /// This request with a header set, replacing one of the same name.
    pub fn header(self, name: &str, value: &str) -> (r: RequestBuilder)
        ensures
            r.headers_map@.map_values(|p: (String, String)| (p.0@, p.1@)) == drop_pair(
                self.headers_map@.map_values(|p: (String, String)| (p.0@, p.1@)),
                name@,
            ).push((name@, value@)),
            r.url@ == self.url@,
            r.method@ == self.method@,
            r.query_params@ == self.query_params@,
            r.body_data == self.body_data,
            r.auth_data == self.auth_data,
            r.request_timeout_ms == self.request_timeout_ms,
    {
        let mut headers_map = self.headers_map;
        upsert_pair(&mut headers_map, String::from_str(name), String::from_str(value));
        RequestBuilder { headers_map, ..self }
    }

    /// This request with a query parameter set, replacing one of the same
    /// name.
    pub fn query_param(self, name: &str, value: &str) -> (r: RequestBuilder)
        ensures
            r.query_params@.map_values(|p: (String, String)| (p.0@, p.1@)) == drop_pair(
                self.query_params@.map_values(|p: (String, String)| (p.0@, p.1@)),
                name@,
            ).push((name@, value@)),
            r.url@ == self.url@,
            r.method@ == self.method@,
            r.headers_map@ == self.headers_map@,
            r.body_data == self.body_data,
            r.request_timeout_ms == self.request_timeout_ms,
    {
        let mut query_params = self.query_params;
        upsert_pair(&mut query_params, String::from_str(name), String::from_str(value));
        RequestBuilder { query_params, ..self }
    }

    /// This request with a JSON body.
    pub fn json_body(self, value: JsonValue) -> (r: RequestBuilder)
        ensures
            r.body_data matches Some(b) && (b matches RequestBody::Json(v) && v == value),
            r.url@ == self.url@,
            r.method@ == self.method@,
    {
        RequestBuilder { body_data: Some(RequestBody::Json(value)), ..self }
    }

    /// This request with a form body.
    pub fn form_body(self, form: Vec<(String, String)>) -> (r: RequestBuilder)
        ensures
            r.body_data matches Some(b) && (b matches RequestBody::Form(f) && f@ == form@),
            r.url@ == self.url@,
            r.method@ == self.method@,
    {
        RequestBuilder { body_data: Some(RequestBody::Form(form)), ..self }
    }

    /// This request with basic credentials.
    pub fn basic_auth(self, user: &str, pass: &str) -> (r: RequestBuilder)
        ensures
            r.auth_data matches Auth::Basic { username, password } && username@ == user@
                && password@ == pass@,
            r.url@ == self.url@,
    {
        RequestBuilder { auth_data: Auth::basic(user, pass), ..self }
    }

    /// This request with a bearer token.
    pub fn bearer_auth(self, tok: &str) -> (r: RequestBuilder)
        ensures
            r.auth_data matches Auth::Bearer { token } && token@ == tok@,
            r.url@ == self.url@,
    {
        RequestBuilder { auth_data: Auth::bearer(tok), ..self }
    }

    /// This request with another timeout, in milliseconds.
    pub fn set_timeout(self, timeout_ms: u64) -> (r: RequestBuilder)
        ensures
            r.request_timeout_ms == timeout_ms,
            r.url@ == self.url@,
            r.method@ == self.method@,
    {
        RequestBuilder { request_timeout_ms: timeout_ms, ..self }
    }

    /// The URL with the query string appended, when there is one.
    pub fn build_url(&self) -> (r: Result<String, Error>)
        ensures
            match r {
                Ok(u) => if self.query_params@.len() == 0 {
                    u@ == self.url@
                } else {
                    u@ == self.url@ + seq!['?'] + form_encoding(
                        self.query_params@.map_values(|p: (String, String)| (p.0@, p.1@)),
                    )
                },
                Err(e) => self.query_params@.len() > 0 && e is Http,
            },
    {
        if self.query_params.len() == 0 {
            return Ok(self.url.clone());
        }
        match urlencode_pairs(&self.query_params) {
            Ok(qs) => {
                let mut u = self.url.clone();
                text::push_char(&mut u, '?');
                u.append(qs.as_str());
                proof {
                    assert(u@ =~= self.url@ + seq!['?'] + qs@);
                }
                Ok(u)
            },
            Err(e) => {
                let mut msg = String::from_str("query: ");
                msg.append(e.as_str());
                Err(Error::Http(msg))
            },
        }
    }

    /// The URL must be non-empty with an `http` or `https` scheme, and the
    /// auth scheme must be complete.
    pub fn validate(&self) -> (r: Result<(), Error>)
        ensures
            match r {
                Ok(_) => self.url@.len() > 0 && (text::has_prefix(self.url@, "http://"@)
                    || text::has_prefix(self.url@, "https://"@)) && auth_valid(self.auth_data),
                Err(e) => (self.url@.len() == 0 || (!text::has_prefix(self.url@, "http://"@)
                    && !text::has_prefix(self.url@, "https://"@)) || !auth_valid(
                    self.auth_data,
                )) && e is Http,
            },
    {
        if self.url.as_str().unicode_len() == 0 {
            return Err(Error::Http(String::from_str("empty url")));
        }
        if !text::starts_with(self.url.as_str(), "http://") && !text::starts_with(
            self.url.as_str(),
            "https://",
        ) {
            return Err(Error::Http(String::from_str("invalid url scheme")));
        }
        match self.auth_data.validate() {
            Ok(_) => Ok(()),
            Err(e) => Err(e),
        }
    }

    /// The request's timeout, in milliseconds.
    pub fn timeout(&self) -> (r: u64)
        ensures
            r == self.request_timeout_ms,
    {
        self.request_timeout_ms
    }
}

/// The knobs an HTTP client is built with.
#[derive(Debug)]
pub struct ClientConfig {
    pub max_connections: usize,
    pub default_timeout_secs: u64,
    pub enable_cookies: bool,
    pub max_retries: u32,
    pub retry_delay_ms: u64,
    pub max_redirects: u32,
    pub tls_config: TlsConfig,
    pub proxy_config: ProxyConfig,
    pub compression_config: CompressionConfig,
}

impl Default for ClientConfig {
    fn default() -> (r: ClientConfig)
        ensures
            r.max_connections == 32,
            r.default_timeout_secs == 30,
            r.enable_cookies,
            r.max_retries == 3,
            r.retry_delay_ms == 100,
            r.max_redirects == 5,
            r.tls_config.validation is Strict,
            r.proxy_config.proxy is None,
            r.compression_config.enabled,
    {
        ClientConfig {
            max_connections: 32,
            default_timeout_secs: 30,
            enable_cookies: true,
            max_retries: 3,
            retry_delay_ms: 100,
            max_redirects: 5,
            tls_config: TlsConfig::new(),
            proxy_config: ProxyConfig::new(),
            compression_config: CompressionConfig::new(),
        }
    }
}

} // verus!
