use starla::config::{default_registration_servers, ProbeConfig};
use starla::paths::{
    config_dir, join_path, parse_probe_id_file, probe_id_file_text, probe_pubkey_path,
    runtime_dir, state_dir, PathEnv,
};

fn env() -> PathEnv {
    PathEnv {
        configuration_directory: None,
        state_directory: None,
        runtime_directory: None,
        xdg_config_home: None,
        xdg_state_home: None,
        xdg_runtime_dir: None,
        home: Some("/home/probe".to_string()),
        in_container: false,
        is_root: false,
        uid: 1000,
        temp_dir: "/tmp".to_string(),
        state_override: None,
        runtime_override: None,
    }
}

#[test]
fn test_config_dir_with_env() {
    let mut e = env();
    e.configuration_directory = Some("/test/config".into());
    assert_eq!(config_dir(&e), "/test/config");
}

#[test]
fn test_state_dir_with_env() {
    let mut e = env();
    e.state_directory = Some("/test/state".into());
    assert_eq!(state_dir(&e), "/test/state");
}

#[test]
fn test_xdg_config_fallback() {
    let mut e = env();
    e.xdg_config_home = Some("/home/test/.config".into());
    assert_eq!(config_dir(&e), "/home/test/.config/starla");
}

#[test]
fn test_xdg_state_fallback() {
    let mut e = env();
    e.xdg_state_home = Some("/home/test/.local/state".into());
    assert_eq!(state_dir(&e), "/home/test/.local/state/starla");
}

#[test]
fn directory_priorities() {
    let e = env();
    assert_eq!(config_dir(&e), "/home/probe/.config/starla");
    assert_eq!(state_dir(&e), "/home/probe/.local/state/starla");
    assert_eq!(runtime_dir(&e), "/tmp/starla-1000");
    let mut root = env();
    root.is_root = true;
    assert_eq!(config_dir(&root), "/etc/starla");
    assert_eq!(state_dir(&root), "/var/lib/starla");
    assert_eq!(runtime_dir(&root), "/run/starla");
    let mut c = env();
    c.in_container = true;
    c.xdg_state_home = Some("/x".into());
    assert_eq!(config_dir(&c), "/config");
    assert_eq!(state_dir(&c), "/state");
    assert_eq!(runtime_dir(&c), "/run/starla");
    let mut homeless = env();
    homeless.home = None;
    assert_eq!(config_dir(&homeless), "/etc/starla");
    assert_eq!(state_dir(&homeless), "/var/lib/starla");
}

#[test]
fn command_line_directories_win_and_only_once() {
    let mut e = env();
    e.state_directory = Some("/systemd/state".into());
    e.set_state_dir("/cli/state".into());
    e.set_state_dir("/ignored".into());
    assert_eq!(state_dir(&e), "/cli/state");
    assert_eq!(probe_pubkey_path(&e), "/cli/state/probe_key.pub");
    e.set_runtime_dir("/cli/run".into());
    assert_eq!(runtime_dir(&e), "/cli/run");
    assert_eq!(ProbeConfig::for_env(&e).storage.data_dir, "/cli/state");
}

#[test]
fn joining_paths() {
    assert_eq!(join_path("/a", "b"), "/a/b");
    assert_eq!(join_path("/a/", "b"), "/a/b");
    assert_eq!(join_path("", "b"), "b");
    assert_eq!(join_path("/a", "/abs"), "/abs");
}

#[test]
fn test_probe_id_read_write() {
    assert_eq!(probe_id_file_text(1014036), "1014036");
    assert_eq!(parse_probe_id_file("1014036\n"), Some(1014036));
    assert_eq!(parse_probe_id_file("  7 "), Some(7));
    assert_eq!(parse_probe_id_file("x"), None);
    assert_eq!(parse_probe_id_file("99999999999"), None);
}

#[test]
fn default_settings() {
    let c = ProbeConfig::new("/data".into());
    assert_eq!(c.probe.log_level, "info");
    assert_eq!(c.controller.ssh_timeout, 30);
    assert_eq!(c.storage.retention_days, 30);
    assert_eq!(c.metrics.listen_addr, "127.0.0.1:9090");
    assert_eq!(c.logging.format, "json");
    assert_eq!(default_registration_servers()[0], "reg03.atlas.ripe.net:443");
    assert_eq!(default_registration_servers().len(), 6);
}
