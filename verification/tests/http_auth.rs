use hurl_lib::auth::Auth;

#[test]
fn test_basic_auth_creation() {
    let auth = Auth::basic("user", "pass");
    match auth {
        Auth::Basic { username, password } => {
            assert_eq!(username, "user");
            assert_eq!(password, "pass");
        }
        _ => panic!("Expected Basic auth"),
    }
}

#[test]
fn test_basic_auth_header_encoding() {
    let auth = Auth::basic("user", "pass");
    let header = auth.header_value().unwrap();
    assert_eq!(header, "Basic dXNlcjpwYXNz");
}

#[test]
fn test_bearer_auth_creation() {
    let auth = Auth::bearer("token123");
    match auth {
        Auth::Bearer { token } => {
            assert_eq!(token, "token123");
        }
        _ => panic!("Expected Bearer auth"),
    }
}

#[test]
fn test_digest_auth_creation() {
    let auth = Auth::digest("user", "pass");
    match auth {
        Auth::Digest {
            username, password, ..
        } => {
            assert_eq!(username, "user");
            assert_eq!(password, "pass");
        }
        _ => panic!("Expected Digest auth"),
    }
}

#[test]
fn test_digest_header_with_challenge() {
    let auth = Auth::Digest {
        username: "user".to_string(),
        password: "pass".to_string(),
        realm: Some("realm".to_string()),
        nonce: Some("abc".to_string()),
        uri: Some("/x".to_string()),
        qop: Some("auth".to_string()),
        nc: 1,
        cnonce: Some("c1".to_string()),
    };
    let header = auth.header_value().unwrap();
    assert!(header.starts_with("Digest username=\"user\""));
    assert!(header.contains(", nonce=\"abc\""));
    let start = header.find(", response=\"").unwrap() + ", response=\"".len();
    let digest = &header[start..start + 32];
    assert_eq!(digest.len(), 32);
    assert!(digest.chars().all(|c| c.is_ascii_hexdigit()));
    assert!(header.contains(", nc=00000001"));
    assert!(header.contains(", cnonce=\"c1\""));
}

#[test]
fn test_oauth2_auth_creation() {
    let auth = Auth::oauth2("access_token");
    match auth {
        Auth::OAuth2 {
            token, token_type, ..
        } => {
            assert_eq!(token, "access_token");
            assert_eq!(token_type, "Bearer");
        }
        _ => panic!("Expected OAuth2 auth"),
    }
}

#[test]
fn test_oauth2_with_refresh() {
    let auth = Auth::oauth2_with_refresh("token", "refresh", 3600);
    match auth {
        Auth::OAuth2 {
            token,
            refresh_token,
            expires_in,
            ..
        } => {
            assert_eq!(token, "token");
            assert_eq!(refresh_token, Some("refresh".to_string()));
            assert_eq!(expires_in, Some(3600));
        }
        _ => panic!("Expected OAuth2 auth"),
    }
}

#[test]
fn test_kerberos_auth_creation() {
    let auth = Auth::kerberos("user@REALM");
    match auth {
        Auth::Kerberos { principal } => {
            assert_eq!(principal, "user@REALM");
        }
        _ => panic!("Expected Kerberos auth"),
    }
}

#[test]
fn test_basic_auth_validate() {
    let auth = Auth::basic("user", "pass");
    assert!(auth.validate().is_ok());
}

#[test]
fn test_basic_auth_validate_empty_user() {
    let auth = Auth::Basic {
        username: "".to_string(),
        password: "pass".to_string(),
    };
    assert!(auth.validate().is_err());
}

#[test]
fn test_basic_auth_validate_empty_password() {
    let auth = Auth::Basic {
        username: "user".to_string(),
        password: "".to_string(),
    };
    assert!(auth.validate().is_err());
}

#[test]
fn tests_test_bearer_validate() {
    let auth = Auth::bearer("token");
    assert!(auth.validate().is_ok());
}

#[test]
fn test_bearer_validate_empty() {
    let auth = Auth::Bearer {
        token: "".to_string(),
    };
    assert!(auth.validate().is_err());
}

#[test]
fn test_digest_validate() {
    let auth = Auth::digest("user", "pass");
    assert!(auth.validate().is_ok());
}

#[test]
fn test_oauth2_validate() {
    let auth = Auth::oauth2("token");
    assert!(auth.validate().is_ok());
}

#[test]
fn test_oauth2_validate_empty() {
    let auth = Auth::OAuth2 {
        token: "".to_string(),
        token_type: "Bearer".to_string(),
        expires_in: None,
        refresh_token: None,
    };
    assert!(auth.validate().is_err());
}

#[test]
fn test_oauth2_is_expired() {
    let auth = Auth::OAuth2 {
        token: "token".to_string(),
        token_type: "Bearer".to_string(),
        expires_in: Some(0),
        refresh_token: None,
    };
    assert!(auth.is_expired());
}

#[test]
fn test_oauth2_not_expired() {
    let auth = Auth::oauth2_with_refresh("token", "refresh", 3600);
    assert!(!auth.is_expired());
}

#[test]
fn test_get_refresh_token() {
    let auth = Auth::oauth2_with_refresh("token", "refresh_token", 3600);
    assert_eq!(auth.get_refresh_token(), Some("refresh_token"));
}

#[test]
fn test_get_refresh_token_none() {
    let auth = Auth::oauth2("token");
    assert_eq!(auth.get_refresh_token(), None);
}

#[test]
fn test_auth_default() {
    let auth = Auth::default();
    assert!(matches!(auth, Auth::Anonymous));
}

#[test]
fn test_multiple_auth_types() {
    let basic = Auth::basic("user", "pass");
    let bearer = Auth::bearer("token");
    let digest = Auth::digest("user", "pass");
    let oauth2 = Auth::oauth2("token");
    let kerberos = Auth::kerberos("user@REALM");

    assert!(basic.validate().is_ok());
    assert!(bearer.validate().is_ok());
    assert!(digest.validate().is_ok());
    assert!(oauth2.validate().is_ok());
    assert!(kerberos.validate().is_ok());
}

#[test]
fn test_oauth2_refresh_workflow() {
    let mut auth = Auth::oauth2_with_refresh("old_token", "refresh_token", 3600);
    match auth {
        Auth::OAuth2 {
            ref mut expires_in, ..
        } => {
            *expires_in = Some(0);
        }
        _ => panic!("Expected OAuth2"),
    }
    assert!(auth.is_expired());
}

#[test]
fn test_empty_basic_auth_credentials() {
    let auth = Auth::Basic {
        username: "".to_string(),
        password: "".to_string(),
    };
    assert!(auth.validate().is_err());
}

#[test]
fn test_empty_digest_credentials() {
    let auth = Auth::Digest {
        username: "".to_string(),
        password: "".to_string(),
        realm: None,
        nonce: None,
        uri: None,
        qop: None,
        nc: 0,
        cnonce: None,
    };
    assert!(auth.validate().is_err());
}

#[test]
fn test_empty_bearer_token() {
    let auth = Auth::Bearer {
        token: "".to_string(),
    };
    assert!(auth.validate().is_err());
}

#[test]
fn test_empty_oauth2_token() {
    let auth = Auth::OAuth2 {
        token: "".to_string(),
        token_type: "Bearer".to_string(),
        expires_in: None,
        refresh_token: None,
    };
    assert!(auth.validate().is_err());
}

#[test]
fn test_expired_oauth2() {
    let auth = Auth::OAuth2 {
        token: "token".to_string(),
        token_type: "Bearer".to_string(),
        expires_in: Some(0),
        refresh_token: None,
    };
    assert!(auth.is_expired());
}
