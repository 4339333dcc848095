//! Where the probe keeps its files.
//!
//! The directories are decided from what the environment holds (systemd's
//! directory variables, the XDG variables, `HOME`, whether the process runs
//! in a container or as root), which the caller reads and hands over as a
//! `PathEnv`, together with the directories given on the command line.
//!
//! Config directory: `$CONFIGURATION_DIRECTORY`; in a container `/config`;
//! `$XDG_CONFIG_HOME/starla`; as root `/etc/starla`, else
//! `~/.config/starla`.
//!
//! State directory: the `--state-dir` override; `$STATE_DIRECTORY`; in a
//! container `/state`; `$XDG_STATE_HOME/starla`; as root `/var/lib/starla`,
//! else `~/.local/state/starla`.
//!
//! Runtime directory: the `--runtime-dir` override; `$RUNTIME_DIRECTORY`;
//! in a container `/run/starla`; `$XDG_RUNTIME_DIR/starla`; as root
//! `/run/starla`, else `<temp>/starla-<uid>`.
use crate::text::{concat, decimal, ends_with_char, push_decimal, spec_parse_unsigned, spec_trim, starts_with_char, trim};
use vstd::prelude::*;

verus! {

/// What the environment holds that decides the directories.
#[derive(Debug, Clone)]
pub struct PathEnv {
    /// `$CONFIGURATION_DIRECTORY` (systemd)
    pub configuration_directory: Option<String>,
    /// `$STATE_DIRECTORY` (systemd)
    pub state_directory: Option<String>,
    /// `$RUNTIME_DIRECTORY` (systemd)
    pub runtime_directory: Option<String>,
    /// `$XDG_CONFIG_HOME`
    pub xdg_config_home: Option<String>,
    /// `$XDG_STATE_HOME`
    pub xdg_state_home: Option<String>,
    /// `$XDG_RUNTIME_DIR`
    pub xdg_runtime_dir: Option<String>,
    /// The home directory (`$HOME`)
    pub home: Option<String>,
    /// Whether the process runs in a container
    pub in_container: bool,
    /// Whether the process runs as root
    pub is_root: bool,
    /// The user id
    pub uid: u32,
    /// The system's temporary directory
    pub temp_dir: String,
    /// The state directory given on the command line
    pub state_override: Option<String>,
    /// The runtime directory given on the command line
    pub runtime_override: Option<String>,
}

/// The application name used in subdirectories.
pub open spec fn app_name() -> Seq<char> {
    "starla"@
}

/// `PathBuf::join` on Unix: an absolute `name` replaces `dir`; otherwise
/// `name` is appended, with a `/` between unless `dir` is empty or already
/// ends with one.
pub open spec fn spec_join(dir: Seq<char>, name: Seq<char>) -> Seq<char> {
    if name.len() > 0 && name[0] == '/' {
        name
    } else if dir.len() == 0 || dir.last() == '/' {
        dir + name
    } else {
        dir + "/"@ + name
    }
}

/// Joins a file or directory name onto a directory.
pub fn join_path(dir: &str, name: &str) -> (r: String)
    ensures
        r@ == spec_join(dir@, name@),
{
    if starts_with_char(name, '/') {
        String::from_str(name)
    } else if dir.unicode_len() == 0 || ends_with_char(dir, '/') {
        concat(dir, name)
    } else {
        let head = concat(dir, "/");
        concat(head.as_str(), name)
    }
}

/// The text of an optional string.
pub open spec fn opt_seq(o: Option<String>) -> Option<Seq<char>> {
    match o {
        Some(s) => Some(s@),
        None => None,
    }
}

/// The configuration directory.
pub open spec fn spec_config_dir(env: PathEnv) -> Seq<char> {
    match opt_seq(env.configuration_directory) {
        Some(d) => d,
        None => if env.in_container {
            "/config"@
        } else {
            match opt_seq(env.xdg_config_home) {
                Some(x) => spec_join(x, app_name()),
                None => if env.is_root {
                    spec_join("/etc"@, app_name())
                } else {
                    match opt_seq(env.home) {
                        Some(h) => spec_join(spec_join(h, ".config"@), app_name()),
                        None => spec_join("/etc"@, app_name()),
                    }
                },
            }
        },
    }
}

/// The state directory.
pub open spec fn spec_state_dir(env: PathEnv) -> Seq<char> {
    match opt_seq(env.state_override) {
        Some(d) => d,
        None => match opt_seq(env.state_directory) {
            Some(d) => d,
            None => if env.in_container {
                "/state"@
            } else {
                match opt_seq(env.xdg_state_home) {
                    Some(x) => spec_join(x, app_name()),
                    None => if env.is_root {
                        spec_join("/var/lib"@, app_name())
                    } else {
                        match opt_seq(env.home) {
                            Some(h) => spec_join(
                                spec_join(spec_join(h, ".local"@), "state"@),
                                app_name(),
                            ),
                            None => spec_join("/var/lib"@, app_name()),
                        }
                    },
                }
            },
        },
    }
}

/// The runtime directory.
pub open spec fn spec_runtime_dir(env: PathEnv) -> Seq<char> {
    match opt_seq(env.runtime_override) {
        Some(d) => d,
        None => match opt_seq(env.runtime_directory) {
            Some(d) => d,
            None => if env.in_container {
                spec_join("/run"@, app_name())
            } else {
                match opt_seq(env.xdg_runtime_dir) {
                    Some(x) => spec_join(x, app_name()),
                    None => if env.is_root {
                        spec_join("/run"@, app_name())
                    } else {
                        spec_join(env.temp_dir@, app_name() + "-"@ + decimal(env.uid as nat))
                    },
                }
            },
        },
    }
}

impl PathEnv {
    /// Sets the state directory given on the command line. Only the first
    /// call counts; later ones are ignored.
    pub fn set_state_dir(&mut self, path: String)
        ensures
            final(self).state_override == (match old(self).state_override {
                Some(p) => Some(p),
                None => Some(path),
            }),
            final(self).runtime_override == old(self).runtime_override,
            final(self).configuration_directory == old(self).configuration_directory,
            final(self).state_directory == old(self).state_directory,
            final(self).runtime_directory == old(self).runtime_directory,
            final(self).xdg_config_home == old(self).xdg_config_home,
            final(self).xdg_state_home == old(self).xdg_state_home,
            final(self).xdg_runtime_dir == old(self).xdg_runtime_dir,
            final(self).home == old(self).home,
            final(self).in_container == old(self).in_container,
            final(self).is_root == old(self).is_root,
            final(self).uid == old(self).uid,
            final(self).temp_dir == old(self).temp_dir,
    {
        if self.state_override.is_none() {
            self.state_override = Some(path);
        }
    }

    /// Sets the runtime directory given on the command line. Only the first
    /// call counts; later ones are ignored.
    pub fn set_runtime_dir(&mut self, path: String)
        ensures
            final(self).runtime_override == (match old(self).runtime_override {
                Some(p) => Some(p),
                None => Some(path),
            }),
            final(self).state_override == old(self).state_override,
            final(self).configuration_directory == old(self).configuration_directory,
            final(self).state_directory == old(self).state_directory,
            final(self).runtime_directory == old(self).runtime_directory,
            final(self).xdg_config_home == old(self).xdg_config_home,
            final(self).xdg_state_home == old(self).xdg_state_home,
            final(self).xdg_runtime_dir == old(self).xdg_runtime_dir,
            final(self).home == old(self).home,
            final(self).in_container == old(self).in_container,
            final(self).is_root == old(self).is_root,
            final(self).uid == old(self).uid,
            final(self).temp_dir == old(self).temp_dir,
    {
        if self.runtime_override.is_none() {
            self.runtime_override = Some(path);
        }
    }
}

/// The configuration directory.
pub fn config_dir(env: &PathEnv) -> (r: String)
    ensures
        r@ == spec_config_dir(*env),
{
    if let Some(d) = &env.configuration_directory {
        return d.clone();
    }
    if env.in_container {
        return String::from_str("/config");
    }
    if let Some(x) = &env.xdg_config_home {
        return join_path(x.as_str(), "starla");
    }
    if env.is_root {
        return join_path("/etc", "starla");
    }
    if let Some(h) = &env.home {
        let c = join_path(h.as_str(), ".config");
        return join_path(c.as_str(), "starla");
    }
    join_path("/etc", "starla")
}

/// The state directory.
pub fn state_dir(env: &PathEnv) -> (r: String)
    ensures
        r@ == spec_state_dir(*env),
{
    if let Some(d) = &env.state_override {
        return d.clone();
    }
    if let Some(d) = &env.state_directory {
        return d.clone();
    }
    if env.in_container {
        return String::from_str("/state");
    }
    if let Some(x) = &env.xdg_state_home {
        return join_path(x.as_str(), "starla");
    }
    if env.is_root {
        return join_path("/var/lib", "starla");
    }
    if let Some(h) = &env.home {
        let l = join_path(h.as_str(), ".local");
        let s = join_path(l.as_str(), "state");
        return join_path(s.as_str(), "starla");
    }
    join_path("/var/lib", "starla")
}

/// The runtime directory.
pub fn runtime_dir(env: &PathEnv) -> (r: String)
    ensures
        r@ == spec_runtime_dir(*env),
{
    if let Some(d) = &env.runtime_override {
        return d.clone();
    }
    if let Some(d) = &env.runtime_directory {
        return d.clone();
    }
    if env.in_container {
        return join_path("/run", "starla");
    }
    if let Some(x) = &env.xdg_runtime_dir {
        return join_path(x.as_str(), "starla");
    }
    if env.is_root {
        return join_path("/run", "starla");
    }
    let mut name = String::from_str("starla-");
    push_decimal(&mut name, env.uid as u64);
    proof {
        reveal_strlit("starla-");
        reveal_strlit("starla");
        reveal_strlit("-");
        assert(("starla-"@ + decimal(env.uid as nat)) =~= app_name() + "-"@ + decimal(
            env.uid as nat,
        ));
    }
    join_path(env.temp_dir.as_str(), name.as_str())
}

/// The configuration file: `config.toml` in the configuration directory.
pub fn config_file(env: &PathEnv) -> (r: String)
    ensures
        r@ == spec_join(spec_config_dir(*env), "config.toml"@),
{
    let d = config_dir(env);
    join_path(d.as_str(), "config.toml")
}

/// The probe's private key: `probe_key` in the state directory.
pub fn probe_key_path(env: &PathEnv) -> (r: String)
    ensures
        r@ == spec_join(spec_state_dir(*env), "probe_key"@),
{
    let d = state_dir(env);
    join_path(d.as_str(), "probe_key")
}

/// The probe's public key: `probe_key.pub` in the state directory.
pub fn probe_pubkey_path(env: &PathEnv) -> (r: String)
    ensures
        r@ == spec_join(spec_state_dir(*env), "probe_key.pub"@),
{
    let d = state_dir(env);
    join_path(d.as_str(), "probe_key.pub")
}

/// The known SSH host keys: `known_hosts` in the state directory.
pub fn known_hosts_path(env: &PathEnv) -> (r: String)
    ensures
        r@ == spec_join(spec_state_dir(*env), "known_hosts"@),
{
    let d = state_dir(env);
    join_path(d.as_str(), "known_hosts")
}

/// The probe id file: `probe_id` in the state directory.
pub fn probe_id_path(env: &PathEnv) -> (r: String)
    ensures
        r@ == spec_join(spec_state_dir(*env), "probe_id"@),
{
    let d = state_dir(env);
    join_path(d.as_str(), "probe_id")
}

/// The probe id a probe id file holds: its trimmed text read as a number,
/// or `None`.
pub fn parse_probe_id_file(content: &str) -> (r: Option<u32>)
    ensures
        r == (match spec_parse_unsigned(spec_trim(content@), u32::MAX as int) {
            Some(v) => Some(v as u32),
            None => None,
        }),
{
    let t = trim(content);
    crate::text::parse_u32(t.as_str())
}

/// The text written to the probe id file.
pub fn probe_id_file_text(probe_id: u32) -> (r: String)
    ensures
        r@ == decimal(probe_id as nat),
{
    crate::text::u64_to_string(probe_id as u64)
}

/// A file named `name` in the state directory lies in it, whatever the
/// environment: the state directory is a prefix of the path.
pub proof fn lemma_state_files_in_state_dir(env: PathEnv, name: Seq<char>)
    requires
        name.len() > 0,
        name[0] != '/',
    ensures
        spec_join(spec_state_dir(env), name).take(spec_state_dir(env).len() as int)
            == spec_state_dir(env),
{
    let d = spec_state_dir(env);
    if d.len() == 0 || d.last() == '/' {
        assert((d + name).take(d.len() as int) =~= d);
    } else {
        assert((d + "/"@ + name).take(d.len() as int) =~= d);
    }
}

} // verus!
