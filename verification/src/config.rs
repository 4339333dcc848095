//! The probe's configuration and its defaults.
use crate::paths::{spec_state_dir, state_dir, PathEnv};
use vstd::prelude::*;

verus! {

/// The firmware version the probe reports to the controller.
pub const FIRMWARE_VERSION: u32 = 5120;

/// The software's version, reported in the sub-architecture at
/// registration.
pub const VERSION: &'static str = "0.3.0";

/// The firmware version a configuration holds unless its file says
/// otherwise.
pub const DEFAULT_FIRMWARE_VERSION: u32 = 6000;

/// Main probe configuration.
#[derive(Debug, Clone)]
pub struct ProbeConfig {
    pub probe: ProbeSettings,
    pub network: NetworkSettings,
    pub controller: ControllerSettings,
    pub storage: StorageSettings,
    pub metrics: MetricsSettings,
    pub logging: LoggingSettings,
}

#[derive(Debug, Clone)]
pub struct ProbeSettings {
    /// Firmware version
    pub firmware_version: u32,
    /// Log level
    pub log_level: String,
}

#[derive(Debug, Clone)]
pub struct NetworkSettings {
    pub telnet_port: u16,
    pub http_post_port: u16,
    pub rxtxrpt: bool,
}

#[derive(Debug, Clone)]
pub struct ControllerSettings {
    pub registration_servers: Vec<String>,
    pub ssh_timeout: u64,
    pub keepalive_interval: u64,
}

#[derive(Debug, Clone)]
pub struct StorageSettings {
    pub data_dir: String,
    pub max_queue_size_mb: u64,
    pub retention_days: u32,
    pub max_database_size_mb: u64,
    pub cleanup_interval_hours: u64,
}

#[derive(Debug, Clone)]
pub struct MetricsSettings {
    pub enabled: bool,
    pub listen_addr: String,
}

#[derive(Debug, Clone)]
pub struct LoggingSettings {
    pub format: String,
    pub output: String,
    pub max_file_size_mb: u64,
    pub max_files: u32,
}

pub fn default_firmware_version() -> (r: u32)
    ensures
        r == 6000,
{
    DEFAULT_FIRMWARE_VERSION
}

pub fn default_log_level() -> (r: String)
    ensures
        r@ == "info"@,
{
    String::from_str("info")
}

pub fn default_telnet_port() -> (r: u16)
    ensures
        r == 2023,
{
    2023
}

pub fn default_http_post_port() -> (r: u16)
    ensures
        r == 8080,
{
    8080
}

/// The registration servers: the primary (by name, IPv4, IPv6), then the
/// secondary (likewise), all on port 443.
pub open spec fn spec_registration_servers() -> Seq<Seq<char>> {
    seq![
        "reg03.atlas.ripe.net:443"@,
        "193.0.19.246:443"@,
        "[2001:67c:2e8:11::c100:13f6]:443"@,
        "reg04.atlas.ripe.net:443"@,
        "193.0.19.247:443"@,
        "[2001:67c:2e8:11::c100:13f7]:443"@,
    ]
}

pub fn default_registration_servers() -> (r: Vec<String>)
    ensures
        r.deep_view() == spec_registration_servers(),
{
    let mut v: Vec<String> = Vec::new();
    v.push(String::from_str("reg03.atlas.ripe.net:443"));
    v.push(String::from_str("193.0.19.246:443"));
    v.push(String::from_str("[2001:67c:2e8:11::c100:13f6]:443"));
    v.push(String::from_str("reg04.atlas.ripe.net:443"));
    v.push(String::from_str("193.0.19.247:443"));
    v.push(String::from_str("[2001:67c:2e8:11::c100:13f7]:443"));
    assert(v.deep_view() =~= spec_registration_servers());
    v
}

pub fn default_ssh_timeout() -> (r: u64)
    ensures
        r == 30,
{
    30
}

pub fn default_keepalive_interval() -> (r: u64)
    ensures
        r == 60,
{
    60
}

/// The default data directory: the state directory.
pub fn default_data_dir(env: &PathEnv) -> (r: String)
    ensures
        r@ == spec_state_dir(*env),
{
    state_dir(env)
}

pub fn default_max_queue_size_mb() -> (r: u64)
    ensures
        r == 100,
{
    100
}

pub fn default_retention_days() -> (r: u32)
    ensures
        r == 30,
{
    30
}

pub fn default_max_database_size_mb() -> (r: u64)
    ensures
        r == 1,
{
    1
}

pub fn default_cleanup_interval_hours() -> (r: u64)
    ensures
        r == 24,
{
    24
}

pub fn default_metrics_enabled() -> (r: bool)
    ensures
        r,
{
    true
}

pub fn default_metrics_listen_addr() -> (r: String)
    ensures
        r@ == "127.0.0.1:9090"@,
{
    String::from_str("127.0.0.1:9090")
}

pub fn default_log_format() -> (r: String)
    ensures
        r@ == "json"@,
{
    String::from_str("json")
}

pub fn default_log_output() -> (r: String)
    ensures
        r@ == "stdout"@,
{
    String::from_str("stdout")
}

pub fn default_max_file_size_mb() -> (r: u64)
    ensures
        r == 10,
{
    10
}

pub fn default_max_files() -> (r: u32)
    ensures
        r == 5,
{
    5
}

impl Default for ProbeSettings {
    fn default() -> (r: Self)
        ensures
            r.firmware_version == 6000,
            r.log_level@ == "info"@,
    {
        ProbeSettings { firmware_version: default_firmware_version(), log_level: default_log_level() }
    }
}

impl Default for NetworkSettings {
    fn default() -> (r: Self)
        ensures
            r.telnet_port == 2023,
            r.http_post_port == 8080,
            !r.rxtxrpt,
    {
        NetworkSettings {
            telnet_port: default_telnet_port(),
            http_post_port: default_http_post_port(),
            rxtxrpt: false,
        }
    }
}

impl Default for ControllerSettings {
    fn default() -> (r: Self)
        ensures
            r.registration_servers.deep_view() == spec_registration_servers(),
            r.ssh_timeout == 30,
            r.keepalive_interval == 60,
    {
        ControllerSettings {
            registration_servers: default_registration_servers(),
            ssh_timeout: default_ssh_timeout(),
            keepalive_interval: default_keepalive_interval(),
        }
    }
}

impl Default for MetricsSettings {
    fn default() -> (r: Self)
        ensures
            r.enabled,
            r.listen_addr@ == "127.0.0.1:9090"@,
    {
        MetricsSettings { enabled: default_metrics_enabled(), listen_addr: default_metrics_listen_addr() }
    }
}

impl Default for LoggingSettings {
    fn default() -> (r: Self)
        ensures
            r.format@ == "json"@,
            r.output@ == "stdout"@,
            r.max_file_size_mb == 10,
            r.max_files == 5,
    {
        LoggingSettings {
            format: default_log_format(),
            output: default_log_output(),
            max_file_size_mb: default_max_file_size_mb(),
            max_files: default_max_files(),
        }
    }
}

impl StorageSettings {
    /// The default storage settings, keeping data in `data_dir`.
    pub fn new(data_dir: String) -> (r: Self)
        ensures
            r.data_dir == data_dir,
            r.max_queue_size_mb == 100,
            r.retention_days == 30,
            r.max_database_size_mb == 1,
            r.cleanup_interval_hours == 24,
    {
        StorageSettings {
            data_dir,
            max_queue_size_mb: default_max_queue_size_mb(),
            retention_days: default_retention_days(),
            max_database_size_mb: default_max_database_size_mb(),
            cleanup_interval_hours: default_cleanup_interval_hours(),
        }
    }
}

impl ProbeConfig {
    /// The default configuration, keeping data in `data_dir` (by default
    /// the state directory).
    pub fn new(data_dir: String) -> (r: Self)
        ensures
            r.probe.firmware_version == 6000,
            r.probe.log_level@ == "info"@,
            r.network.telnet_port == 2023,
            r.network.http_post_port == 8080,
            !r.network.rxtxrpt,
            r.controller.registration_servers.deep_view() == spec_registration_servers(),
            r.controller.ssh_timeout == 30,
            r.controller.keepalive_interval == 60,
            r.storage.data_dir == data_dir,
            r.storage.max_queue_size_mb == 100,
            r.storage.retention_days == 30,
            r.storage.max_database_size_mb == 1,
            r.storage.cleanup_interval_hours == 24,
            r.metrics.enabled,
            r.metrics.listen_addr@ == "127.0.0.1:9090"@,
            r.logging.format@ == "json"@,
            r.logging.output@ == "stdout"@,
            r.logging.max_file_size_mb == 10,
            r.logging.max_files == 5,
    {
        ProbeConfig {
            probe: ProbeSettings::default(),
            network: NetworkSettings::default(),
            controller: ControllerSettings::default(),
            storage: StorageSettings::new(data_dir),
            metrics: MetricsSettings::default(),
            logging: LoggingSettings::default(),
        }
    }

    /// The default configuration for an environment: data in its state
    /// directory.
    pub fn for_env(env: &PathEnv) -> (r: Self)
        ensures
            r.storage.data_dir@ == spec_state_dir(*env),
            r.probe.firmware_version == 6000,
            r.network.telnet_port == 2023,
            r.network.http_post_port == 8080,
    {
        Self::new(default_data_dir(env))
    }
}

} // verus!
