use pyrsia::config::{merge_config, CliConfig};

#[test]
fn default_config_values() {
    let c = CliConfig::default();
    assert_eq!(c.host, "localhost");
    assert_eq!(c.port, "7888");
    assert_eq!(c.disk_allocated, "10 GB");
}

#[test]
fn merge_replaces_only_non_empty_fields() {
    let current = CliConfig::default();
    let update = CliConfig {
        host: String::new(),
        port: "7878".to_string(),
        disk_allocated: String::new(),
    };
    let merged = merge_config(current, update);
    assert_eq!(merged.host, "localhost");
    assert_eq!(merged.port, "7878");
    assert_eq!(merged.disk_allocated, "10 GB");
}

#[test]
fn config_equality_by_fields() {
    let a = CliConfig::default();
    let mut b = CliConfig::default();
    assert!(a == b);
    b.port = "7878".to_string();
    assert!(a != b);
}
