use httpcache::config::{CacheConfig, Config, EnvMode, LimitsConfig, LoggingFormat, PolicyConfig};
use httpcache::errors::ProxyError;

fn problem(config: &Config) -> String {
    match config.validate() {
        Ok(()) => panic!("the configuration is valid"),
        Err(err) => {
            assert!(matches!(err, ProxyError::ConfigValidation(_)));
            assert_eq!(err.status_code(), 500);
            err.to_string()
        }
    }
}

#[test]
fn validation_rejects_zero_connection_limit() {
    let mut config = Config::default();
    config.limits.max_connections = 0;

    let err = config.validate().unwrap_err();
    assert!(err
        .to_string()
        .contains("limits.max_connections must be greater than 0"));
}

#[test]
fn validation_rejects_empty_redacted_header_names() {
    let mut config = Config::default();
    config.logging.redact_headers.push("   ".to_string());

    let err = config.validate().unwrap_err();
    assert!(err
        .to_string()
        .contains("logging.redact_headers cannot contain empty header names"));
}

#[test]
fn startup_warnings_report_dev_cache_reset_and_port_overlap() {
    let mut config = Config::default();
    config.env.mode = EnvMode::Dev;
    config.caching.enabled = true;
    config.policy.allowed_ports = vec![80, 443];
    config.policy.denied_ports = vec![443];

    let warnings = config.startup_warnings();
    assert!(warnings
        .iter()
        .any(|warning| warning.contains("dev mode clears .cache on startup")));
    assert!(warnings
        .iter()
        .any(|warning| warning.contains("denied ports win")));
}

#[test]
fn load_validates_parsed_config() {
    let toml = r#"
            [limits]
            max_connections = 0
        "#;

    let table = toml::from_str::<toml::Table>(toml).unwrap();
    let limits = table.get("limits").unwrap().as_table().unwrap();
    let mut config = Config::default();
    config.limits.max_connections = limits.get("max_connections").unwrap().as_integer().unwrap() as usize;

    let err = config.validate().unwrap_err();
    assert!(err
        .to_string()
        .contains("limits.max_connections must be greater than 0"));
}

#[test]
fn defaults_are_as_documented() {
    let config = Config::default();
    assert_eq!(config.env.mode, EnvMode::Dev);
    assert_eq!(config.logging.level, "info");
    assert_eq!(config.logging.format, LoggingFormat::Pretty);
    assert!(config.logging.request_id);
    assert_eq!(
        config.logging.redact_headers,
        vec!["authorization", "proxy-authorization", "cookie", "set-cookie"]
    );
    assert_eq!(config.time.timezone, "UTC");
    assert!(!config.caching.enabled);
    assert_eq!(config.caching.ttl_seconds, 300);
    assert_eq!(config.caching.max_entries, 1024);
    assert_eq!(config.caching.cache_channel_capacity_chunks, 64);
    assert_eq!(config.caching.cache_max_object_size_bytes, 1_073_741_824);
    assert!(config.caching.cache_require_content_length);
    assert_eq!(config.caching.cache_writer_delay_ms, 0);
    assert_eq!(config.limits.max_header_bytes, 32_768);
    assert_eq!(config.limits.max_connections, 1024);
    assert_eq!(config.limits.per_ip_rps, 50);
    assert_eq!(config.limits.connect_timeout_ms, 5_000);
    assert_eq!(config.limits.idle_timeout_ms, 60_000);
    assert_eq!(config.policy.allowed_domains, vec!["*"]);
    assert!(config.policy.denied_domains.is_empty());
    assert_eq!(config.policy.allowed_ports, vec![80, 443]);
    assert!(config.policy.denied_ports.is_empty());
    assert_eq!(config.listen.host, "0.0.0.0");
    assert_eq!(config.listen.port, 3128);
    assert!(config.validate().is_ok());
}

#[test]
fn every_section_has_its_own_defaults() {
    assert!(!CacheConfig::default().enabled);
    assert_eq!(LimitsConfig::default().max_connections, 1024);
    assert_eq!(PolicyConfig::default().allowed_ports, vec![80, 443]);
}

#[test]
fn each_limit_is_checked() {
    let mut config = Config::default();
    config.limits.max_header_bytes = 0;
    assert_eq!(
        problem(&config),
        "config validation failed: limits.max_header_bytes must be greater than 0"
    );

    let mut config = Config::default();
    config.limits.connect_timeout_ms = 0;
    assert_eq!(
        problem(&config),
        "config validation failed: limits.connect_timeout_ms must be greater than 0"
    );

    let mut config = Config::default();
    config.limits.idle_timeout_ms = 0;
    assert_eq!(
        problem(&config),
        "config validation failed: limits.idle_timeout_ms must be greater than 0"
    );
}

#[test]
fn a_time_to_live_is_needed_only_by_a_cache() {
    let mut config = Config::default();
    config.caching.ttl_seconds = 0;
    assert!(config.validate().is_ok());
    config.caching.enabled = true;
    assert_eq!(
        problem(&config),
        "config validation failed: caching.ttl_seconds must be greater than 0 when caching is enabled"
    );
}

#[test]
fn the_first_problem_is_named() {
    let mut config = Config::default();
    config.limits.max_connections = 0;
    config.limits.idle_timeout_ms = 0;
    config.logging.redact_headers = vec!["\t".to_string()];
    assert!(problem(&config).contains("redact_headers"));
}

#[test]
fn warnings_come_in_order() {
    let mut config = Config::default();
    assert!(config.startup_warnings().is_empty());

    config.caching.enabled = true;
    config.caching.cache_channel_capacity_chunks = 0;
    config.caching.max_entries = 0;
    config.policy.allowed_ports = vec![443, 80, 8080, 443];
    config.policy.denied_ports = vec![8080, 443];
    assert_eq!(
        config.startup_warnings(),
        vec![
            "dev mode clears .cache on startup, so cached objects are not persistent across restarts",
            "caching is enabled but cache_channel_capacity_chunks is 0, so cache writes will be skipped",
            "caching is enabled but max_entries is 0, so no SQLite LRU eviction limit is enforced",
            "policy.allowed_ports and policy.denied_ports overlap; denied ports win: [443, 8080, 443]",
        ]
    );

    config.env.mode = EnvMode::Prod;
    assert_eq!(config.startup_warnings().len(), 3);
}
