//! TLS, proxy and credential configuration: plain data with validation.

use vstd::prelude::*;
use crate::error::Error;
use crate::text;

verus! {

/// How server certificates are checked.
#[derive(Debug)]
pub enum CertificateValidation {
    Strict,
    Permissive,
    Custom { ca_bundle: String },
}

/// The lowest TLS protocol versions a client may accept.
#[derive(Debug, Clone, Copy, PartialEq, Eq, PartialOrd, Ord, Structural)]
pub enum TlsVersion {
    TLS1_0,
    TLS1_1,
    TLS1_2,
    TLS1_3,
}

/// TLS settings for a client.
#[derive(Debug)]
pub struct TlsConfig {
    pub validation: CertificateValidation,
    pub cert_pinning: Option<Vec<String>>,
    pub client_cert: Option<String>,
    pub client_key: Option<String>,
    pub min_tls_version: TlsVersion,
    pub ciphers: Vec<String>,
}

impl TlsConfig {
    /// Strict validation, TLS 1.2 or newer, nothing pinned.
    pub fn new() -> (r: TlsConfig)
        ensures
            r.validation is Strict,
            r.cert_pinning is None,
            r.client_cert is None,
            r.client_key is None,
            r.min_tls_version == TlsVersion::TLS1_2,
            r.ciphers@.len() == 0,
    {
        TlsConfig {
            validation: CertificateValidation::Strict,
            cert_pinning: None,
            client_cert: None,
            client_key: None,
            min_tls_version: TlsVersion::TLS1_2,
            ciphers: Vec::new(),
        }
    }

    /// The default, strict configuration.
    pub fn strict() -> (r: TlsConfig)
        ensures
            r.validation is Strict,
            r.cert_pinning is None,
            r.client_cert is None,
            r.client_key is None,
            r.min_tls_version == TlsVersion::TLS1_2,
    {
        Self::new()
    }

    /// The strict configuration with permissive certificate checking.
    pub fn permissive() -> (r: TlsConfig)
        ensures
            r.validation is Permissive,
            r.cert_pinning is None,
            r.client_cert is None,
            r.client_key is None,
            r.min_tls_version == TlsVersion::TLS1_2,
    {
        TlsConfig { validation: CertificateValidation::Permissive, ..Self::new() }
    }

    /// Validation against a custom CA bundle.
    pub fn with_ca_bundle(ca_bundle: String) -> (r: TlsConfig)
        ensures
            r.validation matches CertificateValidation::Custom { ca_bundle: cb } && cb@
                == ca_bundle@,
            r.cert_pinning is None,
            r.client_cert is None,
            r.client_key is None,
    {
        TlsConfig { validation: CertificateValidation::Custom { ca_bundle }, ..Self::new() }
    }

    /// This configuration with certificate pins.
    pub fn with_cert_pinning(self, pins: Vec<String>) -> (r: TlsConfig)
        ensures
            r.cert_pinning matches Some(p) && p@ == pins@,
            r.client_cert == self.client_cert,
            r.client_key == self.client_key,
    {
        TlsConfig { cert_pinning: Some(pins), ..self }
    }

    /// This configuration with a client certificate and key.
    pub fn with_client_cert(self, cert: String, key: String) -> (r: TlsConfig)
        ensures
            r.client_cert matches Some(c) && c@ == cert@,
            r.client_key matches Some(k) && k@ == key@,
    {
        TlsConfig { client_cert: Some(cert), client_key: Some(key), ..self }
    }

    /// This configuration with a minimum TLS version.
    pub fn with_min_tls_version(self, version: TlsVersion) -> (r: TlsConfig)
        ensures
            r.min_tls_version == version,
            r.client_cert == self.client_cert,
            r.client_key == self.client_key,
    {
        TlsConfig { min_tls_version: version, ..self }
    }

    /// A client certificate and key must come together.
    pub fn validate(&self) -> (r: Result<(), Error>)
        ensures
            match r {
                Ok(_) => (self.client_cert is Some) == (self.client_key is Some),
                Err(e) => (self.client_cert is Some) != (self.client_key is Some) && e is Config,
            },
    {
        if self.client_cert.is_some() && self.client_key.is_none() {
            return Err(Error::Config(String::from_str("client certificate requires key")));
        }
        if self.client_cert.is_none() && self.client_key.is_some() {
            return Err(Error::Config(String::from_str("client key requires certificate")));
        }
        Ok(())
    }
}

impl Default for TlsConfig {
    fn default() -> (r: TlsConfig)
        ensures
            r.validation is Strict,
            r.min_tls_version == TlsVersion::TLS1_2,
    {
        Self::new()
    }
}

/// A proxy to route requests through.
#[derive(Debug)]
pub enum ProxyType {
    Http { url: String },
    Https { url: String },
    Socks5 { url: String },
}

/// Proxy credentials.
#[derive(Debug)]
pub struct ProxyAuth {
    pub username: String,
    pub password: String,
}

/// Proxy settings for a client.
#[derive(Debug)]
pub struct ProxyConfig {
    pub proxy: Option<ProxyType>,
    pub no_proxy: Vec<String>,
    pub auth: Option<ProxyAuth>,
}

/// Whether a host matches one bypass pattern: a leading dot matches any
/// subdomain and the bare domain; otherwise the names must be equal.
pub open spec fn bypass_matches(pattern: Seq<char>, host: Seq<char>) -> bool {
    if pattern.len() > 0 && pattern[0] == '.' {
        has_suffix(host, pattern) || has_suffix(host, pattern.subrange(1, pattern.len() as int))
    } else {
        host == pattern
    }
}

/// Whether `suf` ends `s`.
pub open spec fn has_suffix(s: Seq<char>, suf: Seq<char>) -> bool {
    suf.len() <= s.len() && s.subrange(s.len() - suf.len(), s.len() as int) == suf
}

/// Whether `suf` ends `s`, executably.
pub fn ends_with(s: &str, suf: &str) -> (r: bool)
    ensures
        r == has_suffix(s@, suf@),
{
    let n = s.unicode_len();
    let m = suf.unicode_len();
    if m > n {
        return false;
    }
    let tail = s.substring_char(n - m, n);
    text::str_eq(tail, suf)
}

impl ProxyConfig {
    /// No proxy at all.
    pub fn new() -> (r: ProxyConfig)
        ensures
            r.proxy is None,
            r.no_proxy@.len() == 0,
            r.auth is None,
    {
        ProxyConfig { proxy: None, no_proxy: Vec::new(), auth: None }
    }

    /// An HTTP proxy at the given URL.
    pub fn http(url: String) -> (r: ProxyConfig)
        ensures
            r.proxy matches Some(p) && (p matches ProxyType::Http { url: u } && u@ == url@),
            r.no_proxy@.len() == 0,
            r.auth is None,
    {
        ProxyConfig { proxy: Some(ProxyType::Http { url }), ..Self::new() }
    }

    /// An HTTPS proxy at the given URL.
    pub fn https(url: String) -> (r: ProxyConfig)
        ensures
            r.proxy matches Some(p) && (p matches ProxyType::Https { url: u } && u@ == url@),
            r.no_proxy@.len() == 0,
            r.auth is None,
    {
        ProxyConfig { proxy: Some(ProxyType::Https { url }), ..Self::new() }
    }

    /// A SOCKS5 proxy at the given URL.
    pub fn socks5(url: String) -> (r: ProxyConfig)
        ensures
            r.proxy matches Some(p) && (p matches ProxyType::Socks5 { url: u } && u@ == url@),
            r.no_proxy@.len() == 0,
            r.auth is None,
    {
        ProxyConfig { proxy: Some(ProxyType::Socks5 { url }), ..Self::new() }
    }

    /// This configuration with a bypass list.
    pub fn with_no_proxy(self, domains: Vec<String>) -> (r: ProxyConfig)
        ensures
            r.no_proxy@ == domains@,
            r.proxy == self.proxy,
    {
        ProxyConfig { no_proxy: domains, ..self }
    }

    /// This configuration with proxy credentials.
    pub fn with_auth(self, username: String, password: String) -> (r: ProxyConfig)
        ensures
            r.auth matches Some(a) && a.username@ == username@ && a.password@ == password@,
            r.proxy == self.proxy,
    {
        ProxyConfig { auth: Some(ProxyAuth { username, password }), ..self }
    }

    /// Whether requests to `host` skip the proxy.
    #[verifier::loop_isolation(false)]
    pub fn should_bypass(&self, host: &str) -> (r: bool)
        ensures
            r == exists|i: int|
                0 <= i < self.no_proxy@.len() && bypass_matches(
                    (#[trigger] self.no_proxy@[i])@,
                    host@,
                ),
    {
        let n = self.no_proxy.len();
        let mut i: usize = 0;
        while i < n
            invariant
                0 <= i <= n,
                forall|k: int| 0 <= k < i ==> !bypass_matches((#[trigger] self.no_proxy@[k])@, host@),
            decreases n - i,
        {
            let np = &self.no_proxy[i];
            let m = np.as_str().unicode_len();
            let matched: bool = if m > 0 && np.as_str().get_char(0) == '.' {
                ends_with(host, np.as_str()) || ends_with(
                    host,
                    np.as_str().substring_char(1, m),
                )
            } else {
                text::str_eq(host, np.as_str())
            };
            if matched {
                proof {
                    assert(bypass_matches(self.no_proxy@[i as int]@, host@));
                }
                return true;
            }
            i = i + 1;
        }
        false
    }

    /// A configured proxy must have a non-empty URL.
    pub fn validate(&self) -> (r: Result<(), Error>)
        ensures
            match r {
                Ok(_) => match self.proxy {
                    Some(p) => proxy_url(p).len() > 0,
                    None => true,
                },
                Err(e) => (self.proxy matches Some(p) && proxy_url(p).len() == 0) && e is Config,
            },
    {
        match &self.proxy {
            Some(p) => {
                let url: &String = match p {
                    ProxyType::Http { url } => url,
                    ProxyType::Https { url } => url,
                    ProxyType::Socks5 { url } => url,
                };
                if url.as_str().unicode_len() == 0 {
                    Err(Error::Config(String::from_str("proxy URL cannot be empty")))
                } else {
                    Ok(())
                }
            },
            None => Ok(()),
        }
    }
}

/// The URL a proxy setting names.
pub open spec fn proxy_url(p: ProxyType) -> Seq<char> {
    match p {
        ProxyType::Http { url } => url@,
        ProxyType::Https { url } => url@,
        ProxyType::Socks5 { url } => url@,
    }
}

impl Default for ProxyConfig {
    fn default() -> (r: ProxyConfig)
        ensures
            r.proxy is None,
            r.auth is None,
    {
        Self::new()
    }
}

/// A keyed store for secrets, last write wins.
#[derive(Debug)]
pub struct SecureCredentialStore {
    entries: Vec<(String, String)>,
}

/// The mapping a credential list denotes: the later entry wins.
pub open spec fn creds_map(s: Seq<(Seq<char>, Seq<char>)>) -> Map<Seq<char>, Seq<char>>
    decreases s.len(),
{
    if s.len() == 0 {
        Map::empty()
    } else {
        creds_map(s.drop_last()).insert(s.last().0, s.last().1)
    }
}

impl View for SecureCredentialStore {
    type V = Map<Seq<char>, Seq<char>>;

    closed spec fn view(&self) -> Map<Seq<char>, Seq<char>> {
        creds_map(self.entries@.map_values(|p: (String, String)| (p.0@, p.1@)))
    }
}

impl SecureCredentialStore {
    /// An empty store.
    pub fn new() -> (r: SecureCredentialStore)
        ensures
            r@ == Map::<Seq<char>, Seq<char>>::empty(),
    {
        let r = SecureCredentialStore { entries: Vec::new() };
        proof {
            assert(r@ =~= Map::<Seq<char>, Seq<char>>::empty());
        }
        r
    }

    /// Stores a secret under a key, overwriting any earlier one.
    pub fn store(&mut self, key: String, value: String)
        ensures
            final(self)@ == old(self)@.insert(key@, value@),
    {
        let ghost before = self.entries@.map_values(|p: (String, String)| (p.0@, p.1@));
        self.entries.push((key, value));
        proof {
            let after = self.entries@.map_values(|p: (String, String)| (p.0@, p.1@));
            assert(after.drop_last() =~= before);
            assert(final(self)@ =~= old(self)@.insert(
                self.entries@.last().0@,
                self.entries@.last().1@,
            ));
        }
    }

    /// The secret stored under `key`, if any.
    #[verifier::loop_isolation(false)]
    pub fn retrieve(&self, key: &str) -> (r: Option<String>)
        ensures
            match r {
                Some(v) => self@.contains_key(key@) && self@[key@] == v@,
                None => !self@.contains_key(key@),
            },
    {
        let mut i = self.entries.len();
        let ghost s = self.entries@.map_values(|p: (String, String)| (p.0@, p.1@));
        proof {
            assert(s.subrange(0, i as int) =~= s);
        }
        while i > 0
            invariant
                0 <= i <= self.entries@.len(),
                cred_lookup(s, key@) == cred_lookup(s.subrange(0, i as int), key@),
            decreases i,
        {
            let ghost pref = s.subrange(0, i as int);
            proof {
                assert(pref.drop_last() =~= s.subrange(0, i - 1));
                assert(pref.last() == (self.entries@[i - 1].0@, self.entries@[i - 1].1@));
            }
            if text::str_eq(self.entries[i - 1].0.as_str(), key) {
                proof {
                    lemma_cred_lookup(s, key@);
                }
                return Some(self.entries[i - 1].1.clone());
            }
            i = i - 1;
        }
        proof {
            assert(s.subrange(0, 0) =~= Seq::<(Seq<char>, Seq<char>)>::empty());
            lemma_cred_lookup(s, key@);
        }
        None
    }

    /// Removes the secret stored under `key` and hands it back.
    #[verifier::loop_isolation(false)]
    pub fn remove(&mut self, key: &str) -> (r: Option<String>)
        ensures
            !final(self)@.contains_key(key@),
            match r {
                Some(v) => old(self)@.contains_key(key@) && old(self)@[key@] == v@,
                None => !old(self)@.contains_key(key@),
            },
    {
        let taken = self.retrieve(key);
        let n = self.entries.len();
        let mut kept: Vec<(String, String)> = Vec::new();
        let mut i: usize = 0;
        while i < n
            invariant
                0 <= i <= n,
                n == self.entries@.len(),
                self == old(self),
                forall|k: int|
                    0 <= k < kept@.len() ==> (#[trigger] kept@[k]).0@ != key@,
                creds_map(kept@.map_values(|p: (String, String)| (p.0@, p.1@))) =~= creds_map(
                    old(self).entries@.map_values(|p: (String, String)| (p.0@, p.1@)).subrange(
                        0,
                        i as int,
                    ),
                ).remove(key@),
            decreases n - i,
        {
            let ghost s = old(self).entries@.map_values(|p: (String, String)| (p.0@, p.1@));
            let ghost pref = s.subrange(0, i + 1);
            proof {
                assert(pref.drop_last() =~= s.subrange(0, i as int));
                assert(pref.last() == (self.entries@[i as int].0@, self.entries@[i as int].1@));
            }
            if !text::str_eq(self.entries[i].0.as_str(), key) {
                let ghost kv = kept@.map_values(|p: (String, String)| (p.0@, p.1@));
                kept.push((self.entries[i].0.clone(), self.entries[i].1.clone()));
                proof {
                    let kv2 = kept@.map_values(|p: (String, String)| (p.0@, p.1@));
                    assert(kv2.drop_last() =~= kv);
                    assert(creds_map(kv2) =~= creds_map(pref).remove(key@));
                }
            } else {
                proof {
                    assert(creds_map(
                        kept@.map_values(|p: (String, String)| (p.0@, p.1@)),
                    ) =~= creds_map(pref).remove(key@));
                }
            }
            i = i + 1;
        }
        self.entries = kept;
        proof {
            let s = old(self).entries@.map_values(|p: (String, String)| (p.0@, p.1@));
            assert(s.subrange(0, n as int) =~= s);
            lemma_cred_lookup(s, key@);
        }
        taken
    }

    /// Removes every secret.
    pub fn clear(&mut self)
        ensures
            final(self)@ == Map::<Seq<char>, Seq<char>>::empty(),
    {
        self.entries = Vec::new();
        proof {
            assert(final(self)@ =~= Map::<Seq<char>, Seq<char>>::empty());
        }
    }

    /// Whether nothing is stored.
    pub fn is_empty(&self) -> (r: bool)
        ensures
            r == (self@.dom() =~= Set::<Seq<char>>::empty()),
    {
        let e = self.entries.len() == 0;
        proof {
            let s = self.entries@.map_values(|p: (String, String)| (p.0@, p.1@));
            if self.entries@.len() == 0 {
                assert(self@ =~= Map::<Seq<char>, Seq<char>>::empty());
            } else {
                assert(self@.contains_key(s.last().0));
            }
        }
        e
    }
}

/// The value of the last credential entry named `k`, if any.
pub open spec fn cred_lookup(s: Seq<(Seq<char>, Seq<char>)>, k: Seq<char>) -> Option<Seq<char>>
    decreases s.len(),
{
    if s.len() == 0 {
        None
    } else if s.last().0 == k {
        Some(s.last().1)
    } else {
        cred_lookup(s.drop_last(), k)
    }
}

proof fn lemma_cred_lookup(s: Seq<(Seq<char>, Seq<char>)>, k: Seq<char>)
    ensures
        cred_lookup(s, k) == if creds_map(s).contains_key(k) {
            Some(creds_map(s)[k])
        } else {
            None::<Seq<char>>
        },
    decreases s.len(),
{
    if s.len() > 0 {
        lemma_cred_lookup(s.drop_last(), k);
    }
}

} // verus!
