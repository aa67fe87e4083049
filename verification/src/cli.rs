//! Parsing of command-line request options into a request configuration.

use vstd::prelude::*;
use crate::error::Error;
use crate::text;

verus! {

/// Whether the `url` crate accepts a text as a URL; a pure function of the
/// text.
pub uninterp spec fn url_ok(s: Seq<char>) -> bool;

/// Checks whether a text parses as a URL.
///
/// Relies on `url::Url::parse`: acceptance depends on the text alone.
#[verifier::external_body]
fn url_parses(s: &str) -> (r: bool)
    ensures
        r == url_ok(s@),
{
    url::Url::parse(s).is_ok()
}

/// Global output settings parsed from the command line.
#[derive(Debug)]
pub struct Config {
    pub verbose: bool,
    pub quiet: bool,
    pub config_path: Option<String>,
}

impl Config {
    /// Settings from the raw flags.
    pub fn new(verbose: bool, quiet: bool, config_path: Option<String>) -> (r: Config)
        ensures
            r.verbose == verbose,
            r.quiet == quiet,
            r.config_path == config_path,
    {
        Config { verbose, quiet, config_path }
    }

    /// Whether anything should be printed at all.
    pub fn should_output(&self) -> (r: bool)
        ensures
            r == !self.quiet,
    {
        !self.quiet
    }
}

/// One request as the command line describes it.
#[derive(Debug)]
pub struct RequestConfig {
    pub url: String,
    pub headers: Vec<(String, String)>,
    pub auth: Option<(String, String)>,
    pub timeout: Option<u64>,
    pub body: Option<String>,
}

/// The URL after scheme defaulting: a text without an `http` scheme gets
/// `https://` prepended.
pub open spec fn defaulted_url(url: Seq<char>) -> Seq<char> {
    if text::has_prefix(url, "http://"@) || text::has_prefix(url, "https://"@) {
        url
    } else {
        "https://"@ + url
    }
}

/// One `Key: Value` header argument, split at the first colon and
/// trimmed; `None` when there is no colon or the key is empty.
pub open spec fn parsed_header(line: Seq<char>) -> Option<(Seq<char>, Seq<char>)> {
    let k = text::index_of(line, ':');
    if k < 0 {
        None
    } else {
        let key = text::trim_spec(line.subrange(0, k));
        let value = text::trim_spec(line.subrange(k + 1, line.len() as int));
        if key.len() == 0 {
            None
        } else {
            Some((key, value))
        }
    }
}

impl RequestConfig {
    /// Defaults the scheme and validates the URL; an empty or unparsable
    /// text is a configuration error.
    pub fn parse_url(url: &str) -> (r: Result<String, Error>)
        ensures
            match r {
                Ok(u) => url@.len() > 0 && u@ == defaulted_url(url@) && url_ok(u@),
                Err(e) => (url@.len() == 0 || !url_ok(defaulted_url(url@))) && e is Config,
            },
    {
        if url.unicode_len() == 0 {
            return Err(Error::Config(String::from_str("URL cannot be empty")));
        }
        let full: String = if text::starts_with(url, "http://") || text::starts_with(
            url,
            "https://",
        ) {
            String::from_str(url)
        } else {
            let mut s = String::from_str("https://");
            s.append(url);
            s
        };
        if url_parses(full.as_str()) {
            Ok(full)
        } else {
            Err(Error::Config(String::from_str("Invalid URL")))
        }
    }

    /// Splits each `Key: Value` argument; a missing colon or an empty key
    /// is a configuration error.
    #[verifier::loop_isolation(false)]
    pub fn parse_headers(header_strings: Vec<String>) -> (r: Result<Vec<(String, String)>, Error>)
        ensures
            match r {
                Ok(hs) => hs@.len() == header_strings@.len() && forall|i: int|
                    0 <= i < hs@.len() ==> parsed_header(header_strings@[i]@) == Some(
                        ((#[trigger] hs@[i]).0@, hs@[i].1@),
                    ),
                Err(e) => (exists|i: int|
                    0 <= i < header_strings@.len() && parsed_header(
                        (#[trigger] header_strings@[i])@,
                    ) is None) && e is Config,
            },
    {
        let n = header_strings.len();
        let mut out: Vec<(String, String)> = Vec::new();
        let mut i: usize = 0;
        while i < n
            invariant
                0 <= i <= n,
                n == header_strings@.len(),
                out@.len() == i,
                forall|k: int|
                    0 <= k < i ==> parsed_header(header_strings@[k]@) == Some(
                        ((#[trigger] out@[k]).0@, out@[k].1@),
                    ),
            decreases n - i,
        {
            let line = header_strings[i].as_str();
            let ln = line.unicode_len();
            match text::find_char(line, ':', 0) {
                Some(k) => {
                    proof {
                        text::lemma_index_of_found(line@, ':', k as int);
                    }
                    let key = text::trim(line.substring_char(0, k));
                    let value = text::trim(line.substring_char(k + 1, ln));
                    if key.as_str().unicode_len() == 0 {
                        proof {
                            assert(parsed_header(header_strings@[i as int]@) is None);
                        }
                        return Err(
                            Error::Config(String::from_str("Header key cannot be empty")),
                        );
                    }
                    out.push((key, value));
                },
                None => {
                    proof {
                        text::lemma_index_of_absent(line@, ':');
                        assert(parsed_header(header_strings@[i as int]@) is None);
                    }
                    return Err(
                        Error::Config(
                            String::from_str("Invalid header format: expected 'Key: Value'"),
                        ),
                    );
                },
            }
            i = i + 1;
        }
        Ok(out)
    }

    /// Splits `username:password` at the first colon; a missing colon or
    /// an empty username is a configuration error.
    pub fn parse_auth(auth_str: &str) -> (r: Result<(String, String), Error>)
        ensures
            match r {
                Ok(p) => {
                    let k = text::index_of(auth_str@, ':');
                    &&& k >= 0
                    &&& p.0@ == auth_str@.subrange(0, k)
                    &&& p.1@ == auth_str@.subrange(k + 1, auth_str@.len() as int)
                    &&& p.0@.len() > 0
                },
                Err(e) => (text::index_of(auth_str@, ':') < 0 || text::index_of(auth_str@, ':')
                    == 0) && e is Config,
            },
    {
        let n = auth_str.unicode_len();
        match text::find_char(auth_str, ':', 0) {
            Some(k) => {
                proof {
                    text::lemma_index_of_found(auth_str@, ':', k as int);
                }
                if k == 0 {
                    return Err(Error::Config(String::from_str("Username cannot be empty")));
                }
                let username = String::from_str(auth_str.substring_char(0, k));
                let password = String::from_str(auth_str.substring_char(k + 1, n));
                Ok((username, password))
            },
            None => {
                proof {
                    text::lemma_index_of_absent(auth_str@, ':');
                }
                Err(
                    Error::Config(
                        String::from_str("Invalid auth format: expected 'username:password'"),
                    ),
                )
            },
        }
    }

    /// A timeout of zero seconds is a configuration error; absence means
    /// the default applies.
    pub fn parse_timeout(timeout: Option<u64>) -> (r: Result<Option<u64>, Error>)
        ensures
            match r {
                Ok(t) => t == timeout && timeout != Some(0u64),
                Err(e) => timeout == Some(0u64) && e is Config,
            },
    {
        match timeout {
            Some(secs) => {
                if secs == 0 {
                    Err(Error::Config(String::from_str("Timeout must be greater than 0")))
                } else {
                    Ok(Some(secs))
                }
            },
            None => Ok(None),
        }
    }

    /// Parses every option; the first failing one wins.
    pub fn new(
        url: &str,
        headers: Vec<String>,
        auth: Option<String>,
        timeout: Option<u64>,
        body: Option<String>,
    ) -> (r: Result<RequestConfig, Error>)
        ensures
            match r {
                Ok(c) => {
                    &&& c.url@ == defaulted_url(url@)
                    &&& url_ok(c.url@)
                    &&& c.headers@.len() == headers@.len()
                    &&& (forall|i: int|
                        0 <= i < headers@.len() ==> parsed_header(headers@[i]@) == Some(
                            ((#[trigger] c.headers@[i]).0@, c.headers@[i].1@),
                        ))
                    &&& match auth {
                        Some(a) => c.auth matches Some(p) && {
                            let k = text::index_of(a@, ':');
                            &&& k > 0
                            &&& p.0@ == a@.subrange(0, k)
                            &&& p.1@ == a@.subrange(k + 1, a@.len() as int)
                        },
                        None => c.auth is None,
                    }
                    &&& c.timeout == timeout
                    &&& timeout != Some(0u64)
                    &&& c.body == body
                },
                Err(e) => e is Config && {
                    ||| url@.len() == 0
                    ||| !url_ok(defaulted_url(url@))
                    ||| exists|i: int|
                        0 <= i < headers@.len() && parsed_header(
                            (#[trigger] headers@[i])@,
                        ) is None
                    ||| (auth matches Some(a) && text::index_of(a@, ':') <= 0)
                    ||| timeout == Some(0u64)
                },
            },
    {
        let parsed_url = match Self::parse_url(url) {
            Ok(u) => u,
            Err(e) => {
                return Err(e);
            },
        };
        let parsed_headers = match Self::parse_headers(headers) {
            Ok(h) => h,
            Err(e) => {
                return Err(e);
            },
        };
        let parsed_auth: Option<(String, String)> = match auth {
            Some(a) => match Self::parse_auth(a.as_str()) {
                Ok(p) => Some(p),
                Err(e) => {
                    return Err(e);
                },
            },
            None => None,
        };
        match Self::parse_timeout(timeout) {
            Ok(_) => {},
            Err(e) => {
                return Err(e);
            },
        }
        Ok(RequestConfig { url: parsed_url, headers: parsed_headers, auth: parsed_auth, timeout, body })
    }
}

} // verus!
