//! A request-history store with filtered search.

use vstd::prelude::*;
use crate::clock;
use crate::error::Error;
use crate::request::RequestBuilder;
use crate::response::HttpResponse;
use crate::text;

verus! {

/// The decoded text of some bytes, invalid sequences replaced; a pure
/// function of the bytes.
pub uninterp spec fn lossy_text(bytes: Seq<u8>) -> Seq<char>;

/// Decodes bytes as UTF-8, replacing invalid sequences.
///
/// Relies on `String::from_utf8_lossy`: the text depends on the bytes
/// alone.
#[verifier::external_body]
fn bytes_to_text_lossy(bytes: &Vec<u8>) -> (r: String)
    ensures
        r@ == lossy_text(bytes@),
{
    String::from_utf8_lossy(bytes).to_string()
}

/// A fresh random identifier in the hyphenated UUID form.
///
/// Relies on `uuid::Uuid::new_v4` and its `Display`: random, so nothing
/// is promised beyond the rendering's length.
#[verifier::external_body]
fn new_uuid() -> (r: String)
    ensures
        r@.len() == 36,
{
    uuid::Uuid::new_v4().to_string()
}

/// One recorded exchange.
#[derive(Debug)]
pub struct HistoryEntry {
    pub id: String,
    pub timestamp: u64,
    pub url: String,
    pub method: String,
    pub headers: Vec<(String, String)>,
    pub body: Option<String>,
    pub status: u16,
    pub response_headers: Vec<(String, String)>,
    pub response_body: String,
    pub duration_ms: u64,
    pub tags: Vec<String>,
}

impl HistoryEntry {
    /// Records one exchange: the request must validate; the entry gets a
    /// fresh identifier and the current Unix time.
    pub fn from_request_response(
        request: &RequestBuilder,
        response: &HttpResponse,
        tags: Vec<String>,
    ) -> (r: Result<HistoryEntry, Error>)
        ensures
            match r {
                Ok(e) => {
                    &&& e.id@.len() == 36
                    &&& e.url@ == request.url@
                    &&& e.method@ == request.method@
                    &&& e.headers@.map_values(|p: (String, String)| (p.0@, p.1@))
                        == request.headers_map@.map_values(|p: (String, String)| (p.0@, p.1@))
                    &&& e.status == response.status
                    &&& e.response_body@ == response.body@
                    &&& e.duration_ms == response.duration_ms
                    &&& e.tags@ == tags@
                    &&& (e.body is Some) == (request.body_data is Some)
                    &&& request.url@.len() > 0
                    &&& (text::has_prefix(request.url@, "http://"@) || text::has_prefix(
                        request.url@,
                        "https://"@,
                    ))
                    &&& crate::auth::auth_valid(request.auth_data)
                },
                Err(err) => {
                    ||| (err is Http && (request.url@.len() == 0 || (!text::has_prefix(
                        request.url@,
                        "http://"@,
                    ) && !text::has_prefix(request.url@, "https://"@)) || !crate::auth::auth_valid(
                        request.auth_data,
                    )))
                    ||| (err is Http && (request.body_data matches Some(b) && b is Form))
                },
            },
    {
        match request.validate() {
            Ok(_) => {},
            Err(e) => {
                return Err(e);
            },
        }
        let timestamp = clock::now_millis() / 1000;
        let body: Option<String> = match &request.body_data {
            Some(b) => match b.to_bytes() {
                Ok(bytes) => Some(bytes_to_text_lossy(&bytes)),
                Err(e) => {
                    return Err(e);
                },
            },
            None => None,
        };
        let n = request.headers_map.len();
        let mut headers: Vec<(String, String)> = Vec::new();
        let mut i: usize = 0;
        #[verifier::loop_isolation(false)]
        while i < n
            invariant
                0 <= i <= n,
                n == request.headers_map@.len(),
                headers@.len() == i,
                forall|k: int|
                    #![all_triggers]
                    0 <= k < i ==> headers@[k].0@ == request.headers_map@[k].0@ && headers@[k].1@
                        == request.headers_map@[k].1@,
            decreases n - i,
        {
            headers.push((request.headers_map[i].0.clone(), request.headers_map[i].1.clone()));
            i = i + 1;
        }
        let resp = response.duplicate();
        let e = HistoryEntry {
            id: new_uuid(),
            timestamp,
            url: request.url.clone(),
            method: request.method.clone(),
            headers,
            body,
            status: resp.status,
            response_headers: resp.headers,
            response_body: resp.body,
            duration_ms: resp.duration_ms,
            tags,
        };
        proof {
            assert(e.headers@.map_values(|p: (String, String)| (p.0@, p.1@))
                =~= request.headers_map@.map_values(|p: (String, String)| (p.0@, p.1@)));
        }
        Ok(e)
    }
}

/// What a history search filters by; an unset field admits everything.
#[derive(Debug)]
pub struct SearchQuery {
    pub url: Option<String>,
    pub method: Option<String>,
    pub status: Option<u16>,
    pub tags: Option<Vec<String>>,
}

impl SearchQuery {
    /// A query that admits everything.
    pub fn new() -> (r: SearchQuery)
        ensures
            r.url is None,
            r.method is None,
            r.status is None,
            r.tags is None,
    {
        SearchQuery { url: None, method: None, status: None, tags: None }
    }

    /// This query restricted to URLs containing the given text.
    pub fn url(self, url: &str) -> (r: SearchQuery)
        ensures
            r.url matches Some(u) && u@ == url@,
            r.method == self.method,
            r.status == self.status,
            r.tags == self.tags,
    {
        SearchQuery { url: Some(String::from_str(url)), ..self }
    }

    /// This query restricted to one method, compared ignoring case.
    pub fn method(self, method: &str) -> (r: SearchQuery)
        ensures
            r.method matches Some(m) && m@ == method@,
            r.url == self.url,
            r.status == self.status,
            r.tags == self.tags,
    {
        SearchQuery { method: Some(String::from_str(method)), ..self }
    }

    /// This query restricted to one status code.
    pub fn status(self, status: u16) -> (r: SearchQuery)
        ensures
            r.status == Some(status),
            r.url == self.url,
            r.method == self.method,
            r.tags == self.tags,
    {
        SearchQuery { status: Some(status), ..self }
    }

    /// This query restricted to entries carrying any of the given tags.
    pub fn tags(self, tags: Vec<String>) -> (r: SearchQuery)
        ensures
            r.tags matches Some(t) && t@ == tags@,
            r.url == self.url,
            r.method == self.method,
            r.status == self.status,
    {
        SearchQuery { tags: Some(tags), ..self }
    }
}

impl Default for SearchQuery {
    fn default() -> (r: SearchQuery)
        ensures
            r.url is None && r.method is None && r.status is None && r.tags is None,
    {
        Self::new()
    }
}

/// Whether an entry satisfies every set field of a query.
pub open spec fn query_matches(e: HistoryEntry, q: SearchQuery) -> bool {
    &&& match q.url {
        Some(u) => text::contains_sub(e.url@, u@),
        None => true,
    }
    &&& match q.method {
        Some(m) => text::eq_ignore_case_spec(e.method@, m@),
        None => true,
    }
    &&& match q.status {
        Some(s) => e.status == s,
        None => true,
    }
    &&& match q.tags {
        Some(ts) => exists|i: int|
            0 <= i < ts@.len() && tag_present(e, (#[trigger] ts@[i])@),
        None => true,
    }
}

/// Whether an entry carries a tag with exactly this text.
pub open spec fn tag_present(e: HistoryEntry, tag: Seq<char>) -> bool {
    exists|k: int| 0 <= k < e.tags@.len() && (#[trigger] e.tags@[k])@ == tag
}

/// An in-memory list of recorded exchanges.
#[derive(Debug)]
pub struct HistoryStore {
    pub entries: Vec<HistoryEntry>,
}

impl HistoryStore {
    /// An empty store.
    pub fn new() -> (r: HistoryStore)
        ensures
            r.entries@.len() == 0,
    {
        HistoryStore { entries: Vec::new() }
    }

    /// Appends an entry and hands back its identifier.
    pub fn save(&mut self, entry: HistoryEntry) -> (r: String)
        ensures
            final(self).entries@ == old(self).entries@.push(entry),
            r@ == entry.id@,
    {
        let id = entry.id.clone();
        self.entries.push(entry);
        id
    }

    /// The first entry with the given identifier, if any.
    #[verifier::loop_isolation(false)]
    pub fn get<'a>(&'a self, id: &str) -> (r: Option<&'a HistoryEntry>)
        ensures
            match r {
                Some(e) => exists|i: int|
                    0 <= i < self.entries@.len() && (#[trigger] self.entries@[i]).id@ == id@
                        && e == &self.entries@[i],
                None => forall|i: int|
                    0 <= i < self.entries@.len() ==> (#[trigger] self.entries@[i]).id@ != id@,
            },
    {
        let n = self.entries.len();
        let mut i: usize = 0;
        while i < n
            invariant
                0 <= i <= n,
                forall|k: int| 0 <= k < i ==> (#[trigger] self.entries@[k]).id@ != id@,
            decreases n - i,
        {
            if text::str_eq(self.entries[i].id.as_str(), id) {
                proof {
                    assert(self.entries@[i as int].id@ == id@);
                }
                return Some(&self.entries[i]);
            }
            i = i + 1;
        }
        None
    }

    /// The entries matching a query, in store order.
    #[verifier::loop_isolation(false)]
    pub fn search<'a>(&'a self, query: &SearchQuery) -> (r: Vec<&'a HistoryEntry>)
        ensures
            r@.map_values(|e: &HistoryEntry| *e) == filter_entries(self.entries@, *query),
    {
        let n = self.entries.len();
        let mut out: Vec<&HistoryEntry> = Vec::new();
        let mut i: usize = 0;
        proof {
            assert(filter_entries(self.entries@.subrange(0, 0), *query) =~= out@.map_values(
                |e: &HistoryEntry| *e,
            ));
        }
        while i < n
            invariant
                0 <= i <= n,
                n == self.entries@.len(),
                filter_entries(self.entries@.subrange(0, i as int), *query) =~= out@.map_values(
                    |e: &HistoryEntry| *e,
                ),
            decreases n - i,
        {
            let ghost pref = self.entries@.subrange(0, i + 1);
            proof {
                assert(pref.drop_last() =~= self.entries@.subrange(0, i as int));
                assert(pref.last() == self.entries@[i as int]);
            }
            let e = &self.entries[i];
            let url_match: bool = match &query.url {
                Some(u) => text::contains_str(e.url.as_str(), u.as_str()),
                None => true,
            };
            let method_match: bool = match &query.method {
                Some(m) => text::eq_ignore_case(e.method.as_str(), m.as_str()),
                None => true,
            };
            let status_match: bool = match query.status {
                Some(s) => e.status == s,
                None => true,
            };
            let tag_match: bool = match &query.tags {
                Some(ts) => any_tag_held(e, ts),
                None => true,
            };
            if url_match && method_match && status_match && tag_match {
                out.push(e);
            }
            proof {
                assert(filter_entries(self.entries@.subrange(0, i + 1), *query)
                    =~= out@.map_values(|e: &HistoryEntry| *e));
            }
            i = i + 1;
        }
        proof {
            assert(self.entries@.subrange(0, n as int) =~= self.entries@);
        }
        out
    }

    /// Removes the first entry with the given identifier; says whether one
    /// was there.
    #[verifier::loop_isolation(false)]
    pub fn delete(&mut self, id: &str) -> (r: bool)
        ensures
            r == exists|i: int|
                0 <= i < old(self).entries@.len() && (#[trigger] old(self).entries@[i]).id@
                    == id@,
            !r ==> final(self).entries@ == old(self).entries@,
            r ==> final(self).entries@.len() == old(self).entries@.len() - 1,
    {
        let n = self.entries.len();
        let mut i: usize = 0;
        while i < n
            invariant
                0 <= i <= n,
                n == self.entries@.len(),
                self == old(self),
                forall|k: int| 0 <= k < i ==> (#[trigger] self.entries@[k]).id@ != id@,
            decreases n - i,
        {
            if text::str_eq(self.entries[i].id.as_str(), id) {
                proof {
                    assert(self.entries@[i as int].id@ == id@);
                }
                self.entries.remove(i);
                return true;
            }
            i = i + 1;
        }
        false
    }

    /// Every entry, in store order.
    #[verifier::loop_isolation(false)]
    pub fn list_all<'a>(&'a self) -> (r: Vec<&'a HistoryEntry>)
        ensures
            r@.len() == self.entries@.len(),
            forall|k: int| 0 <= k < r@.len() ==> r@[k] == &self.entries@[k],
    {
        let n = self.entries.len();
        let mut out: Vec<&HistoryEntry> = Vec::new();
        let mut i: usize = 0;
        while i < n
            invariant
                0 <= i <= n,
                out@.len() == i,
                forall|k: int| 0 <= k < i ==> out@[k] == &self.entries@[k],
            decreases n - i,
        {
            out.push(&self.entries[i]);
            i = i + 1;
        }
        out
    }

    /// Removes every entry.
    pub fn clear(&mut self)
        ensures
            final(self).entries@.len() == 0,
    {
        self.entries = Vec::new();
    }

    /// How many entries are held.
    pub fn len(&self) -> (r: usize)
        ensures
            r == self.entries@.len(),
    {
        self.entries.len()
    }
}

impl Default for HistoryStore {
    fn default() -> (r: HistoryStore)
        ensures
            r.entries@.len() == 0,
    {
        Self::new()
    }
}

/// The entries of `s` that satisfy a query, kept in order.
pub open spec fn filter_entries(s: Seq<HistoryEntry>, q: SearchQuery) -> Seq<HistoryEntry>
    decreases s.len(),
{
    if s.len() == 0 {
        Seq::empty()
    } else {
        let rest = filter_entries(s.drop_last(), q);
        if query_matches(s.last(), q) {
            rest.push(s.last())
        } else {
            rest
        }
    }
}

/// Whether the entry carries any of the listed tags.
#[verifier::loop_isolation(false)]
fn any_tag_held(e: &HistoryEntry, ts: &Vec<String>) -> (r: bool)
    ensures
        r == exists|i: int| 0 <= i < ts@.len() && tag_present(*e, (#[trigger] ts@[i])@),
{
    let n = ts.len();
    let mut i: usize = 0;
    while i < n
        invariant
            0 <= i <= n,
            forall|k: int| 0 <= k < i ==> !tag_present(*e, (#[trigger] ts@[k])@),
        decreases n - i,
    {
        if tag_held(e, ts[i].as_str()) {
            proof {
                assert(tag_present(*e, ts@[i as int]@));
            }
            return true;
        }
        i = i + 1;
    }
    false
}

/// Whether the entry carries exactly this tag.
#[verifier::loop_isolation(false)]
fn tag_held(e: &HistoryEntry, tag: &str) -> (r: bool)
    ensures
        r == tag_present(*e, tag@),
{
    let n = e.tags.len();
    let mut i: usize = 0;
    while i < n
        invariant
            0 <= i <= n,
            forall|k: int| 0 <= k < i ==> (#[trigger] e.tags@[k])@ != tag@,
        decreases n - i,
    {
        if text::str_eq(e.tags[i].as_str(), tag) {
            proof {
                assert(0 <= i < e.tags@.len() && (e.tags@[i as int])@ == tag@);
            }
            return true;
        }
        i = i + 1;
    }
    false
}

} // verus!
