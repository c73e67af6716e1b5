use mini_redis::config::Config;

#[test]
fn test_config_default() {
    let config = Config::default();
    assert_eq!(config.max_entries, 1000);
    assert_eq!(config.default_ttl, 300);
    assert_eq!(config.server_port, 3000);
    assert_eq!(config.cleanup_interval, 1);
}

#[test]
fn test_config_from_env_defaults() {
    let config = Config::from_values(None, None, None, None);
    assert_eq!(config.max_entries, 1000);
    assert_eq!(config.default_ttl, 300);
    assert_eq!(config.server_port, 3000);
    assert_eq!(config.cleanup_interval, 1);
}

#[test]
fn test_config_from_values_reads_numbers() {
    let config = Config::from_values(Some("5000"), Some("60"), Some("8080"), Some("10"));
    assert_eq!(config.max_entries, 5000);
    assert_eq!(config.default_ttl, 60);
    assert_eq!(config.server_port, 8080);
    assert_eq!(config.cleanup_interval, 10);
}

#[test]
fn test_config_from_values_falls_back_one_by_one() {
    let config = Config::from_values(Some("many"), Some("60"), Some("70000"), Some(""));
    assert_eq!(config.max_entries, 1000);
    assert_eq!(config.default_ttl, 60);
    assert_eq!(config.server_port, 3000);
    assert_eq!(config.cleanup_interval, 1);

    let config = Config::from_values(Some("-1"), Some(" 60"), Some("65535"), Some("1.5"));
    assert_eq!(config.max_entries, 1000);
    assert_eq!(config.default_ttl, 300);
    assert_eq!(config.server_port, 65535);
    assert_eq!(config.cleanup_interval, 1);

    let config = Config::from_values(Some("0"), Some("0"), Some("65536"), Some("+7"));
    assert_eq!(config.max_entries, 0);
    assert_eq!(config.default_ttl, 0);
    assert_eq!(config.server_port, 3000);
    assert_eq!(config.cleanup_interval, 7);

    let config = Config::from_values(None, Some("18446744073709551615"), None, Some("18446744073709551616"));
    assert_eq!(config.default_ttl, u64::MAX);
    assert_eq!(config.cleanup_interval, 1);
}

#[test]
fn test_config_reexport() {
    let config = mini_redis::Config::default();
    assert_eq!(config.server_port, 3000);
}
