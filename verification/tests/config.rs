use servy::config::{Config, ConfigError};

#[test]
fn test_redirects_url_kept() {
    let config = Config::new("127.0.0.1", 8080, 8081, "INFO", "http://example.com/redirects.json");
    assert_eq!(config.redirects_url, "http://example.com/redirects.json");
}

#[test]
fn test_new_config() {
    let config = Config::new("127.0.0.1", 8080, 8081, "INFO", "http://example.com/redirects.json");
    assert_eq!(config.host, "127.0.0.1");
    assert_eq!(config.servy_port, 8080);
    assert_eq!(config.metrics_port, 8081);
    assert_eq!(config.log_level, "INFO");
    assert_eq!(config.redirects_url, "http://example.com/redirects.json");
}

#[test]
fn test_default_with_redirects() {
    let config = Config::default_with_redirects("http://example.com/redirects.json");
    assert_eq!(config.host, "127.0.0.1");
    assert_eq!(config.servy_port, 8080);
    assert_eq!(config.metrics_port, 8081);
    assert_eq!(config.log_level, "INFO");
    assert_eq!(config.redirects_url, "http://example.com/redirects.json");
}

#[test]
fn test_servy_socket() {
    let config = Config::new("127.0.0.1", 8080, 8081, "INFO", "http://example.com");
    assert_eq!(config.servy_socket(), "127.0.0.1:8080");
    let config = Config::new("0.0.0.0", 9090, 8081, "INFO", "http://example.com");
    assert_eq!(config.servy_socket(), "0.0.0.0:9090");
}

#[test]
fn test_metrics_socket() {
    let config = Config::new("127.0.0.1", 8080, 8081, "INFO", "http://example.com");
    assert_eq!(config.metrics_socket(), "127.0.0.1:8081");
    let config = Config::new("0.0.0.0", 8080, 9091, "INFO", "http://example.com");
    assert_eq!(config.metrics_socket(), "0.0.0.0:9091");
}

#[test]
fn test_from_values_defaults() {
    let config = Config::from_values(
        Some("http://example.com".to_string()),
        None,
        None,
        None,
        None,
    )
    .unwrap();
    assert_eq!(config.redirects_url, "http://example.com");
    assert_eq!(config.log_level, "INFO");
    assert_eq!(config.host, "127.0.0.1");
    assert_eq!(config.servy_port, 8080);
    assert_eq!(config.metrics_port, 8081);
}

#[test]
fn test_from_values_explicit() {
    let config = Config::from_values(
        Some("http://example.com".to_string()),
        Some("DEBUG".to_string()),
        Some("0.0.0.0".to_string()),
        Some("9090".to_string()),
        Some("9091".to_string()),
    )
    .unwrap();
    assert_eq!(config.log_level, "DEBUG");
    assert_eq!(config.host, "0.0.0.0");
    assert_eq!(config.servy_port, 9090);
    assert_eq!(config.metrics_port, 9091);
}

#[test]
fn test_from_values_missing_url() {
    let err = Config::from_values(None, None, None, None, None).unwrap_err();
    assert!(matches!(err, ConfigError::MissingRedirectsUrl));
}

#[test]
fn test_from_values_invalid_port() {
    let err = Config::from_values(
        Some("http://example.com".to_string()),
        None,
        None,
        Some("not-a-port".to_string()),
        None,
    )
    .unwrap_err();
    assert!(matches!(err, ConfigError::InvalidPort));
}

#[test]
fn test_from_values_invalid_metrics_port() {
    let err = Config::from_values(
        Some("http://example.com".to_string()),
        None,
        None,
        Some("8080".to_string()),
        Some("65536".to_string()),
    )
    .unwrap_err();
    assert!(matches!(err, ConfigError::InvalidMetricsPort));
}

#[test]
fn test_from_values_port_edge_cases() {
    // Largest port, and a leading plus sign, both accepted.
    let config = Config::from_values(
        Some("http://example.com".to_string()),
        None,
        None,
        Some("65535".to_string()),
        Some("+8081".to_string()),
    )
    .unwrap();
    assert_eq!(config.servy_port, 65535);
    assert_eq!(config.metrics_port, 8081);
    // Empty and bare-plus port strings are rejected.
    assert!(Config::from_values(
        Some("http://example.com".to_string()),
        None,
        None,
        Some("".to_string()),
        None,
    )
    .is_err());
    assert!(Config::from_values(
        Some("http://example.com".to_string()),
        None,
        None,
        Some("+".to_string()),
        None,
    )
    .is_err());
}
