use starla::config::ProbeConfig;
use starla::paths::{config_file, known_hosts_path, probe_id_path, probe_key_path, PathEnv};
use starla::ssh::SshConfig;
use starla::store::CleanupConfig;
use std::time::Duration;

fn plain_env() -> PathEnv {
    PathEnv {
        configuration_directory: None,
        state_directory: None,
        runtime_directory: None,
        xdg_config_home: None,
        xdg_state_home: None,
        xdg_runtime_dir: None,
        home: Some("/home/probe".to_string()),
        in_container: false,
        is_root: false,
        uid: 1000,
        temp_dir: "/tmp".to_string(),
        state_override: None,
        runtime_override: None,
    }
}

#[test]
fn config_test_default_config() {
    let config = ProbeConfig::for_env(&plain_env());
    assert_eq!(config.probe.firmware_version, 6000);
    assert_eq!(config.network.telnet_port, 2023);
    assert_eq!(config.network.http_post_port, 8080);
}

#[test]
fn test_default_file_paths() {
    let env = plain_env();
    let config = config_file(&env);
    assert!(config.contains("config.toml"));

    let key = probe_key_path(&env);
    assert!(key.contains("probe_key"));

    let pid = probe_id_path(&env);
    assert!(pid.contains("probe_id"));

    let kh = known_hosts_path(&env);
    assert!(kh.contains("known_hosts"));
}

#[test]
fn ssh_test_default_config() {
    let config = SshConfig::default();
    assert_eq!(Duration::from_secs(config.connect_timeout), Duration::from_secs(30));
    assert_eq!(Duration::from_secs(config.keepalive_interval), Duration::from_secs(30));
}

#[test]
fn cleanup_test_cleanup_config() {
    let config = CleanupConfig {
        retention_days: 30,
        max_database_size_mb: 1,
        cleanup_interval_hours: 24,
    };

    assert_eq!(config.retention_days, 30);
    assert_eq!(config.max_database_size_mb, 1);
    assert_eq!(config.cleanup_interval_hours, 24);
}

#[test]
fn integration_tests_test_cleanup_config() {
    let config = CleanupConfig {
        retention_days: 30,
        max_database_size_mb: 1,
        cleanup_interval_hours: 24,
    };

    assert_eq!(config.retention_days, 30);
    assert_eq!(config.max_database_size_mb, 1);
    assert_eq!(config.cleanup_interval_hours, 24);
}
