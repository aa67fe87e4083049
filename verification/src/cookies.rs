//! Cookies, their matching rules, and a name-keyed jar.

use vstd::prelude::*;
use crate::clock;
use crate::security::{ends_with, has_suffix};
use crate::text;

verus! {

/// The `SameSite` attribute of a cookie.
#[derive(Debug, Clone, Copy, PartialEq, Eq, Structural)]
pub enum SameSite {
    Strict,
    Lax,
    Nonsite,
}

impl SameSite {
    /// The attribute's conventional rendering.
    pub open spec fn spec_text(self) -> Seq<char> {
        match self {
            SameSite::Strict => "Strict"@,
            SameSite::Lax => "Lax"@,
            SameSite::Nonsite => "None"@,
        }
    }

    /// Renders the attribute.
    pub fn as_text(&self) -> (r: &'static str)
        ensures
            r@ == self.spec_text(),
    {
        match self {
            SameSite::Strict => "Strict",
            SameSite::Lax => "Lax",
            SameSite::Nonsite => "None",
        }
    }
}

/// One cookie with its attributes.
#[derive(Debug)]
pub struct Cookie {
    pub name: String,
    pub value: String,
    pub domain: Option<String>,
    pub path: Option<String>,
    pub secure: bool,
    pub http_only: bool,
    pub same_site: SameSite,
    pub expires: Option<u64>,
}

/// The mathematical shape of a cookie.
#[verifier::ext_equal]
pub struct CookieV {
    pub name: Seq<char>,
    pub value: Seq<char>,
    pub domain: Option<Seq<char>>,
    pub path: Option<Seq<char>>,
    pub secure: bool,
    pub http_only: bool,
    pub same_site: SameSite,
    pub expires: Option<u64>,
}

impl View for Cookie {
    type V = CookieV;

    open spec fn view(&self) -> CookieV {
        CookieV {
            name: self.name@,
            value: self.value@,
            domain: match self.domain {
                Some(d) => Some(d@),
                None => None,
            },
            path: match self.path {
                Some(p) => Some(p@),
                None => None,
            },
            secure: self.secure,
            http_only: self.http_only,
            same_site: self.same_site,
            expires: self.expires,
        }
    }
}

/// Whether a cookie's domain attribute admits a request host: a leading
/// dot matches any subdomain and the bare domain, no attribute matches
/// everything.
pub open spec fn domain_matches(domain: Option<Seq<char>>, host: Seq<char>) -> bool {
    match domain {
        Some(d) => if d.len() > 0 && d[0] == '.' {
            has_suffix(host, d) || has_suffix(host, d.subrange(1, d.len() as int))
        } else {
            host == d
        },
        None => true,
    }
}

/// Whether a cookie's path attribute admits a request path: prefix match,
/// no attribute matches everything.
pub open spec fn path_matches(path: Option<Seq<char>>, request_path: Seq<char>) -> bool {
    match path {
        Some(p) => text::has_prefix(request_path, p),
        None => true,
    }
}

/// Whether a cookie has expired at the given Unix time.
pub open spec fn expired_at(c: CookieV, now_secs: u64) -> bool {
    match c.expires {
        Some(e) => e < now_secs,
        None => false,
    }
}

impl Cookie {
    /// A cookie with a name and value, path `/`, `Lax`, nothing else set.
    pub fn new(name: &str, value: &str) -> (r: Cookie)
        ensures
            r@ == (CookieV {
                name: name@,
                value: value@,
                domain: None,
                path: Some("/"@),
                secure: false,
                http_only: false,
                same_site: SameSite::Lax,
                expires: None,
            }),
    {
        Cookie {
            name: String::from_str(name),
            value: String::from_str(value),
            domain: None,
            path: Some(String::from_str("/")),
            secure: false,
            http_only: false,
            same_site: SameSite::Lax,
            expires: None,
        }
    }

    /// This cookie with a domain attribute.
    pub fn with_domain(self, domain: &str) -> (r: Cookie)
        ensures
            r@ == (CookieV { domain: Some(domain@), ..self@ }),
    {
        Cookie { domain: Some(String::from_str(domain)), ..self }
    }

    /// This cookie with a path attribute.
    pub fn with_path(self, path: &str) -> (r: Cookie)
        ensures
            r@ == (CookieV { path: Some(path@), ..self@ }),
    {
        Cookie { path: Some(String::from_str(path)), ..self }
    }

    /// This cookie marked secure.
    pub fn secure(self) -> (r: Cookie)
        ensures
            r@ == (CookieV { secure: true, ..self@ }),
    {
        Cookie { secure: true, ..self }
    }

    /// This cookie marked HTTP-only.
    pub fn http_only(self) -> (r: Cookie)
        ensures
            r@ == (CookieV { http_only: true, ..self@ }),
    {
        Cookie { http_only: true, ..self }
    }

    /// This cookie with a `SameSite` attribute.
    pub fn with_same_site(self, same_site: SameSite) -> (r: Cookie)
        ensures
            r@ == (CookieV { same_site, ..self@ }),
    {
        Cookie { same_site, ..self }
    }

    /// This cookie with an expiry timestamp.
    pub fn with_expires(self, timestamp: u64) -> (r: Cookie)
        ensures
            r@ == (CookieV { expires: Some(timestamp), ..self@ }),
    {
        Cookie { expires: Some(timestamp), ..self }
    }

    /// Whether this cookie has expired at the given Unix time.
    pub fn is_expired_at(&self, now_secs: u64) -> (r: bool)
        ensures
            r == expired_at(self@, now_secs),
    {
        match self.expires {
            Some(e) => e < now_secs,
            None => false,
        }
    }

    /// Whether this cookie has expired now, by the system clock.
    pub fn is_expired(&self) -> bool {
        let now = clock::now_millis() / 1000;
        self.is_expired_at(now)
    }

    /// Whether this cookie's domain attribute admits a request host.
    pub fn matches_domain(&self, request_domain: &str) -> (r: bool)
        ensures
            r == domain_matches(self@.domain, request_domain@),
    {
        match &self.domain {
            Some(domain) => {
                let m = domain.as_str().unicode_len();
                if m > 0 && domain.as_str().get_char(0) == '.' {
                    ends_with(request_domain, domain.as_str()) || ends_with(
                        request_domain,
                        domain.as_str().substring_char(1, m),
                    )
                } else {
                    text::str_eq(request_domain, domain.as_str())
                }
            },
            None => true,
        }
    }

    /// Whether this cookie's path attribute admits a request path.
    pub fn matches_path(&self, request_path: &str) -> (r: bool)
        ensures
            r == path_matches(self@.path, request_path@),
    {
        match &self.path {
            Some(path) => text::starts_with(request_path, path.as_str()),
            None => true,
        }
    }

    /// `name=value`, as a `Cookie` header fragment.
    pub fn to_header_value(&self) -> (r: String)
        ensures
            r@ == self@.name + seq!['='] + self@.value,
    {
        let mut out = String::new();
        out.append(self.name.as_str());
        text::push_char(&mut out, '=');
        out.append(self.value.as_str());
        proof {
            assert(out@ =~= self@.name + seq!['='] + self@.value);
        }
        out
    }

    /// The full `Set-Cookie` rendering with every set attribute.
    #[verifier::rlimit(50)]
    pub fn to_set_cookie_header(&self) -> (r: String)
        ensures
            r@ == set_cookie_text(self@),
    {
        let mut out = self.to_header_value();
        let ghost g0 = self@.name + seq!['='] + self@.value;
        match &self.domain {
            Some(d) => {
                out.append("; Domain=");
                out.append(d.as_str());
            },
            None => {},
        }
        proof {
            assert(out@ =~= g0 + opt_domain_text(self@));
        }
        let ghost g1 = g0 + opt_domain_text(self@);
        match &self.path {
            Some(p) => {
                out.append("; Path=");
                out.append(p.as_str());
            },
            None => {},
        }
        proof {
            assert(out@ =~= g1 + opt_path_text(self@));
        }
        let ghost g2 = g1 + opt_path_text(self@);
        match self.expires {
            Some(e) => {
                out.append("; Expires=");
                text::push_u64(&mut out, e);
            },
            None => {},
        }
        proof {
            assert(out@ =~= g2 + opt_expires_text(self@));
        }
        let ghost g3 = g2 + opt_expires_text(self@);
        if self.secure {
            out.append("; Secure");
        }
        proof {
            assert(out@ =~= g3 + (if self@.secure { "; Secure"@ } else { Seq::<char>::empty() }));
        }
        let ghost g4 = g3 + (if self@.secure { "; Secure"@ } else { Seq::<char>::empty() });
        if self.http_only {
            out.append("; HttpOnly");
        }
        proof {
            assert(out@ =~= g4 + (if self@.http_only { "; HttpOnly"@ } else { Seq::<char>::empty() }));
        }
        out.append("; SameSite=");
        out.append(self.same_site.as_text());
        proof {
            assert(out@ =~= set_cookie_text(self@));
        }
        out
    }

    /// A copy of this cookie.
    pub fn duplicate(&self) -> (r: Cookie)
        ensures
            r@ == self@,
    {
        Cookie {
            name: self.name.clone(),
            value: self.value.clone(),
            domain: match &self.domain {
                Some(d) => Some(d.clone()),
                None => None,
            },
            path: match &self.path {
                Some(p) => Some(p.clone()),
                None => None,
            },
            secure: self.secure,
            http_only: self.http_only,
            same_site: self.same_site,
            expires: self.expires,
        }
    }
}

/// The domain attribute's rendering, when set.
pub open spec fn opt_domain_text(c: CookieV) -> Seq<char> {
    match c.domain {
        Some(d) => "; Domain="@ + d,
        None => Seq::empty(),
    }
}

/// The path attribute's rendering, when set.
pub open spec fn opt_path_text(c: CookieV) -> Seq<char> {
    match c.path {
        Some(p) => "; Path="@ + p,
        None => Seq::empty(),
    }
}

/// The expiry attribute's rendering, when set.
pub open spec fn opt_expires_text(c: CookieV) -> Seq<char> {
    match c.expires {
        Some(e) => "; Expires="@ + text::dec_str(e as int),
        None => Seq::empty(),
    }
}

/// The `Set-Cookie` rendering of a cookie.
pub open spec fn set_cookie_text(c: CookieV) -> Seq<char> {
    c.name + seq!['='] + c.value + opt_domain_text(c) + opt_path_text(c) + opt_expires_text(c) + (
    if c.secure {
        "; Secure"@
    } else {
        Seq::empty()
    }) + (if c.http_only {
        "; HttpOnly"@
    } else {
        Seq::empty()
    }) + "; SameSite="@ + c.same_site.spec_text()
}

/// The jar's entries with every cookie named `k` removed.
pub open spec fn drop_cookie(s: Seq<CookieV>, k: Seq<char>) -> Seq<CookieV>
    decreases s.len(),
{
    if s.len() == 0 {
        Seq::empty()
    } else {
        let rest = drop_cookie(s.drop_last(), k);
        if s.last().name == k {
            rest
        } else {
            rest.push(s.last())
        }
    }
}

/// The last cookie named `k`, if any.
pub open spec fn jar_lookup(s: Seq<CookieV>, k: Seq<char>) -> Option<CookieV>
    decreases s.len(),
{
    if s.len() == 0 {
        None
    } else if s.last().name == k {
        Some(s.last())
    } else {
        jar_lookup(s.drop_last(), k)
    }
}

/// The cookies that are live at `now` and admit the given host and path.
pub open spec fn jar_for_url(
    s: Seq<CookieV>,
    host: Seq<char>,
    path: Seq<char>,
    now: u64,
) -> Seq<CookieV>
    decreases s.len(),
{
    if s.len() == 0 {
        Seq::empty()
    } else {
        let rest = jar_for_url(s.drop_last(), host, path, now);
        let c = s.last();
        if !expired_at(c, now) && domain_matches(c.domain, host) && path_matches(c.path, path) {
            rest.push(c)
        } else {
            rest
        }
    }
}

/// The `Cookie` header fragments of a cookie list, joined with `; `.
pub open spec fn joined_cookies(s: Seq<CookieV>) -> Seq<char>
    decreases s.len(),
{
    if s.len() == 0 {
        Seq::empty()
    } else if s.len() == 1 {
        s[0].name + seq!['='] + s[0].value
    } else {
        joined_cookies(s.drop_last()) + "; "@ + s.last().name + seq!['='] + s.last().value
    }
}

/// A store of cookies, one per name; the last added wins.
#[derive(Debug)]
pub struct CookieJar {
    cookies: Vec<Cookie>,
}

impl View for CookieJar {
    type V = Seq<CookieV>;

    closed spec fn view(&self) -> Seq<CookieV> {
        self.cookies@.map_values(|c: Cookie| c@)
    }
}

impl CookieJar {
    /// An empty jar.
    pub fn new() -> (r: CookieJar)
        ensures
            r@ == Seq::<CookieV>::empty(),
    {
        let r = CookieJar { cookies: Vec::new() };
        proof {
            assert(r@ =~= Seq::<CookieV>::empty());
        }
        r
    }

    /// Adds a cookie, replacing any earlier one of the same name.
    #[verifier::loop_isolation(false)]
    pub fn add(&mut self, cookie: Cookie)
        ensures
            final(self)@ == drop_cookie(old(self)@, cookie@.name).push(cookie@),
    {
        let n = self.cookies.len();
        let mut kept: Vec<Cookie> = Vec::new();
        let mut i: usize = 0;
        proof {
            assert(old(self)@.subrange(0, 0) =~= Seq::<CookieV>::empty());
            assert(drop_cookie(old(self)@.subrange(0, 0), cookie@.name) =~= kept@.map_values(
                |c: Cookie| c@,
            ));
        }
        while i < n
            invariant
                0 <= i <= n,
                n == self.cookies@.len(),
                self == old(self),
                drop_cookie(old(self)@.subrange(0, i as int), cookie@.name) =~= kept@.map_values(
                    |c: Cookie| c@,
                ),
            decreases n - i,
        {
            let ghost pref = old(self)@.subrange(0, i + 1);
            proof {
                assert(pref.drop_last() =~= old(self)@.subrange(0, i as int));
                assert(pref.last() == self.cookies@[i as int]@);
            }
            if !text::str_eq(self.cookies[i].name.as_str(), cookie.name.as_str()) {
                kept.push(self.cookies[i].duplicate());
            }
            proof {
                assert(drop_cookie(old(self)@.subrange(0, i + 1), cookie@.name)
                    =~= kept@.map_values(|c: Cookie| c@));
            }
            i = i + 1;
        }
        kept.push(cookie);
        self.cookies = kept;
        proof {
            assert(old(self)@.subrange(0, n as int) =~= old(self)@);
            assert(final(self)@ =~= drop_cookie(old(self)@, self.cookies@.last()@.name).push(
                self.cookies@.last()@,
            ));
        }
    }

    /// The cookie stored under `name`, if any.
    #[verifier::loop_isolation(false)]
    pub fn get<'a>(&'a self, name: &str) -> (r: Option<&'a Cookie>)
        ensures
            match r {
                Some(c) => jar_lookup(self@, name@) == Some(c@),
                None => jar_lookup(self@, name@) is None,
            },
    {
        let mut i = self.cookies.len();
        proof {
            assert(self@.subrange(0, i as int) =~= self@);
        }
        while i > 0
            invariant
                0 <= i <= self.cookies@.len(),
                jar_lookup(self@, name@) == jar_lookup(self@.subrange(0, i as int), name@),
            decreases i,
        {
            let ghost pref = self@.subrange(0, i as int);
            proof {
                assert(pref.drop_last() =~= self@.subrange(0, i - 1));
                assert(pref.last() == self.cookies@[i - 1]@);
            }
            if text::str_eq(self.cookies[i - 1].name.as_str(), name) {
                return Some(&self.cookies[i - 1]);
            }
            i = i - 1;
        }
        proof {
            assert(self@.subrange(0, 0) =~= Seq::<CookieV>::empty());
        }
        None
    }

    /// Removes and returns the cookie stored under `name`.
    #[verifier::loop_isolation(false)]
    pub fn remove(&mut self, name: &str) -> (r: Option<Cookie>)
        ensures
            final(self)@ == drop_cookie(old(self)@, name@),
            match r {
                Some(c) => jar_lookup(old(self)@, name@) == Some(c@),
                None => jar_lookup(old(self)@, name@) is None,
            },
    {
        let taken: Option<Cookie> = match self.get(name) {
            Some(c) => Some(c.duplicate()),
            None => None,
        };
        let n = self.cookies.len();
        let mut kept: Vec<Cookie> = Vec::new();
        let mut i: usize = 0;
        proof {
            assert(old(self)@.subrange(0, 0) =~= Seq::<CookieV>::empty());
            assert(drop_cookie(old(self)@.subrange(0, 0), name@) =~= kept@.map_values(
                |c: Cookie| c@,
            ));
        }
        while i < n
            invariant
                0 <= i <= n,
                n == self.cookies@.len(),
                self == old(self),
                drop_cookie(old(self)@.subrange(0, i as int), name@) =~= kept@.map_values(
                    |c: Cookie| c@,
                ),
            decreases n - i,
        {
            let ghost pref = old(self)@.subrange(0, i + 1);
            proof {
                assert(pref.drop_last() =~= old(self)@.subrange(0, i as int));
                assert(pref.last() == self.cookies@[i as int]@);
            }
            if !text::str_eq(self.cookies[i].name.as_str(), name) {
                kept.push(self.cookies[i].duplicate());
            }
            proof {
                assert(drop_cookie(old(self)@.subrange(0, i + 1), name@) =~= kept@.map_values(
                    |c: Cookie| c@,
                ));
            }
            i = i + 1;
        }
        self.cookies = kept;
        proof {
            assert(old(self)@.subrange(0, n as int) =~= old(self)@);
        }
        taken
    }

    /// Removes every cookie.
    pub fn clear(&mut self)
        ensures
            final(self)@ == Seq::<CookieV>::empty(),
    {
        self.cookies = Vec::new();
        proof {
            assert(final(self)@ =~= Seq::<CookieV>::empty());
        }
    }

    /// The live cookies admitting the given host and path, at the given
    /// Unix time.
    #[verifier::loop_isolation(false)]
    pub fn get_for_url_at(&self, domain: &str, path: &str, now_secs: u64) -> (r: Vec<Cookie>)
        ensures
            r@.map_values(|c: Cookie| c@) == jar_for_url(self@, domain@, path@, now_secs),
    {
        let n = self.cookies.len();
        let mut out: Vec<Cookie> = Vec::new();
        let mut i: usize = 0;
        proof {
            assert(jar_for_url(self@.subrange(0, 0), domain@, path@, now_secs)
                =~= out@.map_values(|c: Cookie| c@));
        }
        while i < n
            invariant
                0 <= i <= n,
                n == self.cookies@.len(),
                jar_for_url(self@.subrange(0, i as int), domain@, path@, now_secs)
                    =~= out@.map_values(|c: Cookie| c@),
            decreases n - i,
        {
            let ghost pref = self@.subrange(0, i + 1);
            proof {
                assert(pref.drop_last() =~= self@.subrange(0, i as int));
                assert(pref.last() == self.cookies@[i as int]@);
            }
            let c = &self.cookies[i];
            if !c.is_expired_at(now_secs) && c.matches_domain(domain) && c.matches_path(path) {
                out.push(c.duplicate());
            }
            proof {
                assert(jar_for_url(self@.subrange(0, i + 1), domain@, path@, now_secs)
                    =~= out@.map_values(|c: Cookie| c@));
            }
            i = i + 1;
        }
        proof {
            assert(self@.subrange(0, n as int) =~= self@);
        }
        out
    }

    /// The live cookies admitting the given host and path, now.
    pub fn get_for_url(&self, domain: &str, path: &str) -> (r: Vec<Cookie>)
        ensures
            exists|now: u64|
                r@.map_values(|c: Cookie| c@) == jar_for_url(self@, domain@, path@, now),
    {
        let now = clock::now_millis() / 1000;
        let r = self.get_for_url_at(domain, path, now);
        proof {
            assert(r@.map_values(|c: Cookie| c@) == jar_for_url(self@, domain@, path@, now));
        }
        r
    }

    /// The `Cookie` header for the given host and path at the given time,
    /// or nothing when no cookie applies.
    #[verifier::loop_isolation(false)]
    pub fn get_cookie_header_at(&self, domain: &str, path: &str, now_secs: u64) -> (r: Option<
        String,
    >)
        ensures
            match r {
                Some(v) => jar_for_url(self@, domain@, path@, now_secs).len() > 0 && v@
                    == joined_cookies(jar_for_url(self@, domain@, path@, now_secs)),
                None => jar_for_url(self@, domain@, path@, now_secs).len() == 0,
            },
    {
        let matching = self.get_for_url_at(domain, path, now_secs);
        if matching.len() == 0 {
            return None;
        }
        let n = matching.len();
        let ghost mv = matching@.map_values(|c: Cookie| c@);
        let mut out = String::new();
        let mut i: usize = 0;
        proof {
            assert(mv.subrange(0, 0) =~= Seq::<CookieV>::empty());
        }
        while i < n
            invariant
                0 <= i <= n,
                n == matching@.len(),
                mv == matching@.map_values(|c: Cookie| c@),
                out@ == joined_cookies(mv.subrange(0, i as int)),
            decreases n - i,
        {
            let ghost pref = mv.subrange(0, i + 1);
            proof {
                assert(pref.drop_last() =~= mv.subrange(0, i as int));
                assert(pref.last() == matching@[i as int]@);
            }
            if i > 0 {
                out.append("; ");
            }
            let frag = matching[i].to_header_value();
            out.append(frag.as_str());
            proof {
                assert(out@ =~= joined_cookies(pref));
            }
            i = i + 1;
        }
        proof {
            assert(mv.subrange(0, n as int) =~= mv);
        }
        Some(out)
    }

    /// The `Cookie` header for the given host and path, now.
    pub fn get_cookie_header(&self, domain: &str, path: &str) -> (r: Option<String>)
        ensures
            exists|now: u64|
                match r {
                    Some(v) => jar_for_url(self@, domain@, path@, now).len() > 0 && v@
                        == joined_cookies(jar_for_url(self@, domain@, path@, now)),
                    None => jar_for_url(self@, domain@, path@, now).len() == 0,
                },
    {
        let now = clock::now_millis() / 1000;
        self.get_cookie_header_at(domain, path, now)
    }

    /// How many cookies the jar holds.
    pub fn len(&self) -> (r: usize)
        ensures
            r == self@.len(),
    {
        self.cookies.len()
    }

    /// Whether the jar is empty.
    pub fn is_empty(&self) -> (r: bool)
        ensures
            r == (self@.len() == 0),
    {
        self.cookies.len() == 0
    }

    /// Copies of every cookie held, in store order.
    #[verifier::loop_isolation(false)]
    pub fn all(&self) -> (r: Vec<Cookie>)
        ensures
            r@.map_values(|c: Cookie| c@) == self@,
    {
        let n = self.cookies.len();
        let mut out: Vec<Cookie> = Vec::new();
        let mut i: usize = 0;
        while i < n
            invariant
                0 <= i <= n,
                n == self.cookies@.len(),
                out@.len() == i,
                forall|k: int| #![all_triggers] 0 <= k < i ==> out@[k]@ == self.cookies@[k]@,
            decreases n - i,
        {
            out.push(self.cookies[i].duplicate());
            i = i + 1;
        }
        proof {
            assert(out@.map_values(|c: Cookie| c@) =~= self@);
        }
        out
    }

    /// Drops every cookie that has expired at the given Unix time.
    #[verifier::loop_isolation(false)]
    pub fn remove_expired_at(&mut self, now_secs: u64)
        ensures
            final(self)@ == live_cookies(old(self)@, now_secs),
    {
        let n = self.cookies.len();
        let mut kept: Vec<Cookie> = Vec::new();
        let mut i: usize = 0;
        proof {
            assert(live_cookies(old(self)@.subrange(0, 0), now_secs) =~= kept@.map_values(
                |c: Cookie| c@,
            ));
        }
        while i < n
            invariant
                0 <= i <= n,
                n == self.cookies@.len(),
                self == old(self),
                live_cookies(old(self)@.subrange(0, i as int), now_secs) =~= kept@.map_values(
                    |c: Cookie| c@,
                ),
            decreases n - i,
        {
            let ghost pref = old(self)@.subrange(0, i + 1);
            proof {
                assert(pref.drop_last() =~= old(self)@.subrange(0, i as int));
                assert(pref.last() == self.cookies@[i as int]@);
            }
            if !self.cookies[i].is_expired_at(now_secs) {
                kept.push(self.cookies[i].duplicate());
            }
            proof {
                assert(live_cookies(old(self)@.subrange(0, i + 1), now_secs)
                    =~= kept@.map_values(|c: Cookie| c@));
            }
            i = i + 1;
        }
        self.cookies = kept;
        proof {
            assert(old(self)@.subrange(0, n as int) =~= old(self)@);
        }
    }

    /// Drops every cookie that has expired by the system clock.
    pub fn remove_expired(&mut self)
        ensures
            exists|now: u64| final(self)@ == live_cookies(old(self)@, now),
    {
        let now = clock::now_millis() / 1000;
        self.remove_expired_at(now);
    }
}

/// The cookies of `s` that are still live at `now`.
pub open spec fn live_cookies(s: Seq<CookieV>, now: u64) -> Seq<CookieV>
    decreases s.len(),
{
    if s.len() == 0 {
        Seq::empty()
    } else {
        let rest = live_cookies(s.drop_last(), now);
        if expired_at(s.last(), now) {
            rest
        } else {
            rest.push(s.last())
        }
    }
}

impl Default for CookieJar {
    fn default() -> (r: CookieJar)
        ensures
            r@ == Seq::<CookieV>::empty(),
    {
        CookieJar::new()
    }
}

} // verus!
