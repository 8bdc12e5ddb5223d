use sysmetrics::config::{Cli, Config};

#[test]
fn test_default_config() {
    let config = Config::default();
    assert_eq!(config.server.listen, "0.0.0.0:9101");
    assert_eq!(config.server.metrics_path, "/metrics");
    assert!(config.collectors.cpu);
    assert!(config.collectors.memory);
    assert!(config.collectors.disk);
    assert!(config.collectors.network);
    assert_eq!(config.collectors.disk_config.exclude_pattern, "^(loop|ram|dm-)");
    assert_eq!(config.collectors.network_config.exclude_pattern, "^(lo|veth)");
}

#[test]
fn test_apply_cli_overrides() {
    let cli = Cli {
        listen: Some("127.0.0.1:9102".to_string()),
        config: None,
        log_format: None,
    };
    let config = Config::default().apply_cli(&cli);
    assert_eq!(config.server.listen, "127.0.0.1:9102");
    assert_eq!(config.server.log_format, "text");
    assert_eq!(config.server.metrics_path, "/metrics");
}

#[test]
fn test_apply_cli_keeps_values_without_flags() {
    let cli = Cli { listen: None, config: None, log_format: None };
    let config = Config::default().apply_cli(&cli);
    assert_eq!(config.server.listen, "0.0.0.0:9101");
    assert_eq!(config.server.log_format, "text");
}
