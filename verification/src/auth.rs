//! Authentication schemes and their `Authorization` header values.
//!
//! Basic credentials go through `base64`; digest responses go through
//! `md5`; both stand behind trusted wrappers whose results are named, and
//! every header is assembled by verified code against those names.

use base64::Engine;
use vstd::prelude::*;
use crate::error::Error;
use crate::json::hex_char;
use crate::text;

verus! {

/// The standard base64 encoding of a text's bytes; a pure function of the
/// text.
pub uninterp spec fn base64_of(s: Seq<char>) -> Seq<char>;

/// The lower-case hexadecimal MD5 digest of a text's bytes; a pure
/// function of the text.
pub uninterp spec fn md5_of(s: Seq<char>) -> Seq<char>;

/// Encodes a text's bytes in standard base64.
///
/// Relies on `base64::engine::general_purpose::STANDARD` and
/// `Engine::encode`: the encoding depends on the bytes alone.
#[verifier::external_body]
fn encode_base64(s: &str) -> (r: String)
    ensures
        r@ == base64_of(s@),
{
    base64::engine::general_purpose::STANDARD.encode(s)
}

/// Computes the lower-case hexadecimal MD5 digest of a text's bytes.
///
/// Relies on `md5::compute`: the digest depends on the bytes alone.
#[verifier::external_body]
fn md5_hex(s: &str) -> (r: String)
    ensures
        r@ == md5_of(s@),
{
    format!("{:x}", md5::compute(s))
}

/// The eight-digit lower-case hexadecimal form of a nonce count.
pub open spec fn hex8(n: int) -> Seq<char> {
    hex_digits(n, 8)
}

/// `width` hexadecimal digits of `n`, most significant first.
pub open spec fn hex_digits(n: int, width: int) -> Seq<char>
    decreases width,
{
    if width <= 0 {
        Seq::empty()
    } else {
        hex_digits(n / 16, width - 1).push(hex_char(n % 16))
    }
}

/// Appends `width` hexadecimal digits of `n` to `out`.
fn push_hex(out: &mut String, n: u32, width: u32)
    ensures
        final(out)@ == old(out)@ + hex_digits(n as int, width as int),
    decreases width,
{
    if width == 0 {
        proof {
            assert(old(out)@ + hex_digits(n as int, 0) =~= old(out)@);
        }
        return;
    }
    push_hex(out, n / 16, width - 1);
    text::push_char(out, crate::json::hex_char_exec(n % 16));
}

/// How a request authenticates itself.
#[derive(Debug)]
pub enum Auth {
    Anonymous,
    Basic { username: String, password: String },
    Bearer { token: String },
    Digest {
        username: String,
        password: String,
        realm: Option<String>,
        nonce: Option<String>,
        uri: Option<String>,
        qop: Option<String>,
        nc: u32,
        cnonce: Option<String>,
    },
    OAuth2 {
        token: String,
        token_type: String,
        expires_in: Option<u64>,
        refresh_token: Option<String>,
    },
    Kerberos { principal: String },
}

/// The MD5 digest response for the given challenge parts.
pub open spec fn digest_response(
    username: Seq<char>,
    password: Seq<char>,
    realm: Seq<char>,
    nonce: Seq<char>,
    uri: Seq<char>,
    method: Seq<char>,
    qop: Option<Seq<char>>,
    nc: int,
    cnonce: Seq<char>,
) -> Seq<char> {
    let ha1 = md5_of(username + seq![':'] + realm + seq![':'] + password);
    let ha2 = md5_of(method + seq![':'] + uri);
    match qop {
        Some(q) => md5_of(
            ha1 + seq![':'] + nonce + seq![':'] + hex8(nc) + seq![':'] + cnonce + seq![':'] + q
                + seq![':'] + ha2,
        ),
        None => md5_of(ha1 + seq![':'] + nonce + seq![':'] + ha2),
    }
}

/// The header value each scheme produces, when it produces one.
pub open spec fn spec_header_value(a: Auth) -> Option<Seq<char>> {
    match a {
        Auth::Anonymous => None,
        Auth::Basic { username, password } => Some(
            "Basic "@ + base64_of(username@ + seq![':'] + password@),
        ),
        Auth::Bearer { token } => Some("Bearer "@ + token@),
        Auth::Digest { username, password, realm, nonce, uri, qop, nc, cnonce } => Some(
            {
                let base = "Digest username=\""@ + username@ + seq!['"'];
                let with_realm = match realm {
                    Some(r) => base + ", realm=\""@ + r@ + seq!['"'],
                    None => base,
                };
                let with_nonce = match nonce {
                    Some(n) => with_realm + ", nonce=\""@ + n@ + seq!['"'] + ", response=\""@
                        + digest_response(
                        username@,
                        password@,
                        match realm {
                            Some(r) => r@,
                            None => Seq::empty(),
                        },
                        n@,
                        match uri {
                            Some(u) => u@,
                            None => "/"@,
                        },
                        "GET"@,
                        match qop {
                            Some(q) => Some(q@),
                            None => None,
                        },
                        nc as int,
                        match cnonce {
                            Some(c) => c@,
                            None => "0"@,
                        },
                    ) + seq!['"'],
                    None => with_realm,
                };
                let with_uri = match uri {
                    Some(u) => with_nonce + ", uri=\""@ + u@ + seq!['"'],
                    None => with_nonce,
                };
                match qop {
                    Some(q) => {
                        let with_qop = with_uri + ", qop="@ + q@ + ", nc="@ + hex8(nc as int);
                        match cnonce {
                            Some(c) => with_qop + ", cnonce=\""@ + c@ + seq!['"'],
                            None => with_qop,
                        }
                    },
                    None => with_uri,
                }
            },
        ),
        Auth::OAuth2 { token, token_type, .. } => Some(token_type@ + seq![' '] + token@),
        Auth::Kerberos { .. } => Some("Negotiate"@),
    }
}

impl Auth {
    /// Basic credentials.
    pub fn basic(u: &str, p: &str) -> (r: Auth)
        ensures
            r matches Auth::Basic { username, password } && username@ == u@ && password@ == p@,
    {
        Auth::Basic { username: String::from_str(u), password: String::from_str(p) }
    }

    /// A bearer token.
    pub fn bearer(t: &str) -> (r: Auth)
        ensures
            r matches Auth::Bearer { token } && token@ == t@,
    {
        Auth::Bearer { token: String::from_str(t) }
    }

    /// Digest credentials with no challenge material yet.
    pub fn digest(u: &str, p: &str) -> (r: Auth)
        ensures
            r matches Auth::Digest { username, password, realm, nonce, uri, qop, nc, cnonce }
                && username@ == u@ && password@ == p@ && realm is None && nonce is None
                && uri is None && qop is None && nc == 0 && cnonce is None,
    {
        Auth::Digest {
            username: String::from_str(u),
            password: String::from_str(p),
            realm: None,
            nonce: None,
            uri: None,
            qop: None,
            nc: 0,
            cnonce: None,
        }
    }

    /// An OAuth2 bearer token.
    pub fn oauth2(token: &str) -> (r: Auth)
        ensures
            r matches Auth::OAuth2 { token: t, token_type, expires_in, refresh_token } && t@
                == token@ && token_type@ == "Bearer"@ && expires_in is None
                && refresh_token is None,
    {
        Auth::OAuth2 {
            token: String::from_str(token),
            token_type: String::from_str("Bearer"),
            expires_in: None,
            refresh_token: None,
        }
    }

    /// An OAuth2 token with a refresh token and lifetime.
    pub fn oauth2_with_refresh(token: &str, refresh_token: &str, expires_in: u64) -> (r: Auth)
        ensures
            r matches Auth::OAuth2 { token: t, token_type, expires_in: e, refresh_token: rt }
                && t@ == token@ && token_type@ == "Bearer"@ && e == Some(expires_in) && (
            rt matches Some(x) && x@ == refresh_token@),
    {
        Auth::OAuth2 {
            token: String::from_str(token),
            token_type: String::from_str("Bearer"),
            expires_in: Some(expires_in),
            refresh_token: Some(String::from_str(refresh_token)),
        }
    }

    /// A Kerberos principal.
    pub fn kerberos(principal: &str) -> (r: Auth)
        ensures
            r matches Auth::Kerberos { principal: p } && p@ == principal@,
    {
        Auth::Kerberos { principal: String::from_str(principal) }
    }

    /// The `Authorization` value this scheme produces, when it produces
    /// one.
    #[verifier::rlimit(100)]
    pub fn header_value(&self) -> (r: Option<String>)
        ensures
            match r {
                Some(v) => spec_header_value(*self) == Some(v@),
                None => spec_header_value(*self) is None,
            },
    {
        match self {
            Auth::Anonymous => None,
            Auth::Basic { username, password } => {
                let mut cred = String::new();
                cred.append(username.as_str());
                text::push_char(&mut cred, ':');
                cred.append(password.as_str());
                let mut out = String::from_str("Basic ");
                let encoded = encode_base64(cred.as_str());
                out.append(encoded.as_str());
                proof {
                    assert(cred@ =~= username@ + seq![':'] + password@);
                }
                Some(out)
            },
            Auth::Bearer { token } => {
                let mut out = String::from_str("Bearer ");
                out.append(token.as_str());
                Some(out)
            },
            Auth::Digest { username, password, realm, nonce, uri, qop, nc, cnonce } => {
                let mut header = String::from_str("Digest username=\"");
                header.append(username.as_str());
                header.append("\"");
                proof {
                    reveal_strlit("\"");
                }
                match realm {
                    Some(r) => {
                        header.append(", realm=\"");
                        header.append(r.as_str());
                        header.append("\"");
                    },
                    None => {},
                }
                match nonce {
                    Some(n) => {
                        header.append(", nonce=\"");
                        header.append(n.as_str());
                        header.append("\"");
                        let realm_str: &str = match realm {
                            Some(r) => r.as_str(),
                            None => "",
                        };
                        let uri_str: &str = match uri {
                            Some(u) => u.as_str(),
                            None => "/",
                        };
                        let qop_opt: Option<&str> = match qop {
                            Some(q) => Some(q.as_str()),
                            None => None,
                        };
                        let cnonce_str: &str = match cnonce {
                            Some(c) => c.as_str(),
                            None => "0",
                        };
                        let response_hash = compute_digest_response(
                            username.as_str(),
                            password.as_str(),
                            realm_str,
                            n.as_str(),
                            uri_str,
                            "GET",
                            qop_opt,
                            *nc,
                            cnonce_str,
                        );
                        header.append(", response=\"");
                        header.append(response_hash.as_str());
                        header.append("\"");
                        proof {
                            reveal_strlit("");
                        }
                    },
                    None => {},
                }
                match uri {
                    Some(u) => {
                        header.append(", uri=\"");
                        header.append(u.as_str());
                        header.append("\"");
                    },
                    None => {},
                }
                match qop {
                    Some(q) => {
                        header.append(", qop=");
                        header.append(q.as_str());
                        header.append(", nc=");
                        push_hex(&mut header, *nc, 8);
                        match cnonce {
                            Some(c) => {
                                header.append(", cnonce=\"");
                                header.append(c.as_str());
                                header.append("\"");
                            },
                            None => {},
                        }
                    },
                    None => {},
                }
                proof {
                    assert(spec_header_value(*self) == Some(header@));
                }
                Some(header)
            },
            Auth::OAuth2 { token, token_type, .. } => {
                let mut out = String::new();
                out.append(token_type.as_str());
                text::push_char(&mut out, ' ');
                out.append(token.as_str());
                Some(out)
            },
            Auth::Kerberos { .. } => Some(String::from_str("Negotiate")),
        }
    }

    /// Whether each scheme's required fields are non-empty.
    pub fn validate(&self) -> (r: Result<(), Error>)
        ensures
            match r {
                Ok(_) => auth_valid(*self),
                Err(e) => !auth_valid(*self) && e is Http,
            },
    {
        match self {
            Auth::Anonymous => Ok(()),
            Auth::Basic { username, password } => {
                if username.as_str().unicode_len() == 0 || password.as_str().unicode_len() == 0 {
                    Err(Error::Http(String::from_str("credentials required")))
                } else {
                    Ok(())
                }
            },
            Auth::Bearer { token } => {
                if token.as_str().unicode_len() == 0 {
                    Err(Error::Http(String::from_str("token required")))
                } else {
                    Ok(())
                }
            },
            Auth::Digest { username, password, .. } => {
                if username.as_str().unicode_len() == 0 || password.as_str().unicode_len() == 0 {
                    Err(Error::Http(String::from_str("digest credentials required")))
                } else {
                    Ok(())
                }
            },
            Auth::OAuth2 { token, .. } => {
                if token.as_str().unicode_len() == 0 {
                    Err(Error::Http(String::from_str("oauth2 token required")))
                } else {
                    Ok(())
                }
            },
            Auth::Kerberos { principal } => {
                if principal.as_str().unicode_len() == 0 {
                    Err(Error::Http(String::from_str("kerberos principal required")))
                } else {
                    Ok(())
                }
            },
        }
    }

    /// Whether an OAuth2 token has a zero remaining lifetime.
    pub fn is_expired(&self) -> (r: bool)
        ensures
            r == (self matches Auth::OAuth2 { expires_in, .. } && expires_in == Some(0u64)),
    {
        match self {
            Auth::OAuth2 { expires_in, .. } => match expires_in {
                Some(v) => *v == 0,
                None => false,
            },
            _ => false,
        }
    }

    /// The refresh token, when this is an OAuth2 scheme that has one.
    pub fn get_refresh_token(&self) -> (r: Option<&str>)
        ensures
            match r {
                Some(t) => self matches Auth::OAuth2 { refresh_token: Some(rt), .. } && t@ == rt@,
                None => !(self matches Auth::OAuth2 { refresh_token: Some(_), .. }),
            },
    {
        match self {
            Auth::OAuth2 { refresh_token, .. } => match refresh_token {
                Some(t) => Some(t.as_str()),
                None => None,
            },
            _ => None,
        }
    }
}

/// Whether a scheme's required fields are non-empty.
pub open spec fn auth_valid(a: Auth) -> bool {
    match a {
        Auth::Anonymous => true,
        Auth::Basic { username, password } => username@.len() > 0 && password@.len() > 0,
        Auth::Bearer { token } => token@.len() > 0,
        Auth::Digest { username, password, .. } => username@.len() > 0 && password@.len() > 0,
        Auth::OAuth2 { token, .. } => token@.len() > 0,
        Auth::Kerberos { principal } => principal@.len() > 0,
    }
}

impl Default for Auth {
    fn default() -> (r: Auth)
        ensures
            r is Anonymous,
    {
        Auth::Anonymous
    }
}

/// Computes the digest response hash from its challenge parts.
fn compute_digest_response(
    username: &str,
    password: &str,
    realm: &str,
    nonce: &str,
    uri: &str,
    method: &str,
    qop: Option<&str>,
    nc: u32,
    cnonce: &str,
) -> (r: String)
    ensures
        r@ == digest_response(
            username@,
            password@,
            realm@,
            nonce@,
            uri@,
            method@,
            match qop {
                Some(q) => Some(q@),
                None => None,
            },
            nc as int,
            cnonce@,
        ),
{
    let mut ha1_input = String::new();
    ha1_input.append(username);
    text::push_char(&mut ha1_input, ':');
    ha1_input.append(realm);
    text::push_char(&mut ha1_input, ':');
    ha1_input.append(password);
    let ha1 = md5_hex(ha1_input.as_str());
    let mut ha2_input = String::new();
    ha2_input.append(method);
    text::push_char(&mut ha2_input, ':');
    ha2_input.append(uri);
    let ha2 = md5_hex(ha2_input.as_str());
    proof {
        assert(ha1_input@ =~= username@ + seq![':'] + realm@ + seq![':'] + password@);
        assert(ha2_input@ =~= method@ + seq![':'] + uri@);
    }
    let mut resp_input = String::new();
    resp_input.append(ha1.as_str());
    text::push_char(&mut resp_input, ':');
    resp_input.append(nonce);
    text::push_char(&mut resp_input, ':');
    match qop {
        Some(q) => {
            push_hex(&mut resp_input, nc, 8);
            text::push_char(&mut resp_input, ':');
            resp_input.append(cnonce);
            text::push_char(&mut resp_input, ':');
            resp_input.append(q);
            text::push_char(&mut resp_input, ':');
            resp_input.append(ha2.as_str());
            proof {
                assert(resp_input@ =~= ha1@ + seq![':'] + nonce@ + seq![':'] + hex8(nc as int)
                    + seq![':'] + cnonce@ + seq![':'] + q@ + seq![':'] + ha2@);
            }
        },
        None => {
            resp_input.append(ha2.as_str());
            proof {
                assert(resp_input@ =~= ha1@ + seq![':'] + nonce@ + seq![':'] + ha2@);
            }
        },
    }
    md5_hex(resp_input.as_str())
}

} // verus!
