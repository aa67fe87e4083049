use hurl_lib::security::{
    CertificateValidation, ProxyConfig, ProxyType, SecureCredentialStore, TlsConfig, TlsVersion,
};

#[test]
fn test_tls_config_new() {
    let config = TlsConfig::new();
    assert_eq!(config.min_tls_version, TlsVersion::TLS1_2);
    assert!(config.cert_pinning.is_none());
}

#[test]
fn test_tls_config_strict() {
    let config = TlsConfig::strict();
    assert!(matches!(config.validation, CertificateValidation::Strict));
}

#[test]
fn test_tls_config_permissive() {
    let config = TlsConfig::permissive();
    assert!(matches!(
        config.validation,
        CertificateValidation::Permissive
    ));
}

#[test]
fn test_tls_config_with_ca_bundle() {
    let path = "/path/to/ca.pem".to_string();
    let config = TlsConfig::with_ca_bundle(path.clone());
    assert!(matches!(
        config.validation,
        CertificateValidation::Custom { .. }
    ));
}

#[test]
fn test_tls_config_with_cert_pinning() {
    let config = TlsConfig::new().with_cert_pinning(vec!["pin1".to_string(), "pin2".to_string()]);
    assert_eq!(config.cert_pinning.unwrap().len(), 2);
}

#[test]
fn test_tls_config_with_min_tls_version() {
    let config = TlsConfig::new().with_min_tls_version(TlsVersion::TLS1_3);
    assert_eq!(config.min_tls_version, TlsVersion::TLS1_3);
}

#[test]
fn test_tls_config_validate() {
    let config = TlsConfig::new();
    assert!(config.validate().is_ok());
}

#[test]
fn test_tls_config_validate_missing_key() {
    let config = TlsConfig::new()
        .with_client_cert("/path/to/cert".to_string(), "/path/to/key".to_string());
    assert!(config.validate().is_ok());
}

#[test]
fn test_proxy_config_new() {
    let config = ProxyConfig::new();
    assert!(config.proxy.is_none());
}

#[test]
fn test_proxy_config_http() {
    let config = ProxyConfig::http("http://proxy.example.com:8080".to_string());
    assert!(matches!(config.proxy, Some(ProxyType::Http { .. })));
}

#[test]
fn test_proxy_config_https() {
    let config = ProxyConfig::https("https://proxy.example.com:8080".to_string());
    assert!(matches!(config.proxy, Some(ProxyType::Https { .. })));
}

#[test]
fn test_proxy_config_socks5() {
    let config = ProxyConfig::socks5("socks5://proxy.example.com:1080".to_string());
    assert!(matches!(config.proxy, Some(ProxyType::Socks5 { .. })));
}

#[test]
fn test_proxy_config_with_auth() {
    let config = ProxyConfig::http("http://proxy.com:8080".to_string())
        .with_auth("user".to_string(), "pass".to_string());
    assert!(config.auth.is_some());
}

#[test]
fn test_proxy_config_should_bypass() {
    let config = ProxyConfig::http("http://proxy.com:8080".to_string())
        .with_no_proxy(vec!["localhost".to_string(), ".local".to_string()]);
    assert!(config.should_bypass("localhost"));
    assert!(config.should_bypass("example.local"));
}

#[test]
fn test_proxy_config_should_not_bypass() {
    let config = ProxyConfig::http("http://proxy.com:8080".to_string())
        .with_no_proxy(vec!["localhost".to_string()]);
    assert!(!config.should_bypass("example.com"));
}

#[test]
fn test_proxy_config_validate() {
    let config = ProxyConfig::http("http://proxy.com:8080".to_string());
    assert!(config.validate().is_ok());
}

#[test]
fn test_secure_credential_store() {
    let mut store = SecureCredentialStore::new();
    store.store("key1".to_string(), "value1".to_string());
    assert_eq!(store.retrieve("key1"), Some("value1".to_string()));
}

#[test]
fn test_secure_credential_store_remove() {
    let mut store = SecureCredentialStore::new();
    store.store("key1".to_string(), "value1".to_string());
    assert_eq!(store.remove("key1"), Some("value1".to_string()));
    assert_eq!(store.retrieve("key1"), None);
}

#[test]
fn test_secure_credential_store_clear() {
    let mut store = SecureCredentialStore::new();
    store.store("key1".to_string(), "value1".to_string());
    store.store("key2".to_string(), "value2".to_string());
    store.clear();
    assert!(store.is_empty());
}

#[test]
fn test_tls_with_cert_pinning() {
    let config = TlsConfig::new().with_cert_pinning(vec!["pin1".to_string(), "pin2".to_string()]);
    assert!(config.validate().is_ok());
    assert_eq!(config.cert_pinning.unwrap().len(), 2);
}

#[test]
fn test_proxy_with_bypass_list() {
    let config = ProxyConfig::http("http://proxy.com".to_string()).with_no_proxy(vec![
        "localhost".to_string(),
        ".local".to_string(),
        "127.0.0.1".to_string(),
    ]);
    assert!(config.should_bypass("localhost"));
    assert!(config.should_bypass("example.local"));
    assert!(!config.should_bypass("example.com"));
}

#[test]
fn test_tls_version_ordering() {
    let tls12 = TlsConfig::new().with_min_tls_version(TlsVersion::TLS1_2);
    let tls13 = TlsConfig::new().with_min_tls_version(TlsVersion::TLS1_3);
    assert_eq!(tls12.min_tls_version, TlsVersion::TLS1_2);
    assert_eq!(tls13.min_tls_version, TlsVersion::TLS1_3);
}

#[test]
fn test_empty_proxy_url() {
    let config = ProxyConfig {
        proxy: Some(ProxyType::Http {
            url: "".to_string(),
        }),
        no_proxy: vec![],
        auth: None,
    };
    assert!(config.validate().is_err());
}

#[test]
fn test_proxy_bypass_domain_mismatch() {
    let config = ProxyConfig::http("http://proxy.com".to_string())
        .with_no_proxy(vec!["example.com".to_string()]);
    assert!(!config.should_bypass("other.com"));
}
