//! The SSH side of the controller protocol: connection settings and the
//! reconnection back-off, the registration message (`INIT`), reading the
//! answer to `INIT`, server addresses, and the probe's key texts. The
//! transport itself is the caller's.
use crate::text::{
    concat, decimal, parse_u16, parse_u32, push_decimal, spec_lines, spec_parse_unsigned,
    spec_rsplit_once, spec_split_whitespace, spec_trim, split_lines, split_whitespace, str_eq,
    rsplit_once_char, starts_with_char, trim, chars_of, string_of_range, spec_is_whitespace,
};
use crate::types::ProbeId;
use base64::Engine;
use russh::keys::ssh_key::{Error as SshKeyError, LineEnding};
use crate::tls::{spec_base64, spec_base64_no_pad};
use russh::keys::{Algorithm, Error as RusshKeyError, PrivateKey, PublicKey, PublicKeyBase64};
use sha2::Digest;
use vstd::prelude::*;

verus! {

// ---------------------------------------------------------------------
// Connection settings and reconnection
// ---------------------------------------------------------------------

/// SSH connection configuration. Durations are in seconds.
#[derive(Debug, Clone, Copy)]
pub struct SshConfig {
    /// Connection timeout
    pub connect_timeout: u64,
    /// Inactivity timeout before disconnect
    pub inactivity_timeout: u64,
    /// Keepalive interval
    pub keepalive_interval: u64,
    /// Reconnection delay (base)
    pub reconnect_delay: u64,
    /// Maximum reconnection delay
    pub max_reconnect_delay: u64,
    /// Number of reconnection attempts before giving up (0 = infinite)
    pub max_reconnect_attempts: u32,
}

impl Default for SshConfig {
    fn default() -> (r: Self)
        ensures
            r.connect_timeout == 30,
            r.inactivity_timeout == 120,
            r.keepalive_interval == 30,
            r.reconnect_delay == 5,
            r.max_reconnect_delay == 300,
            r.max_reconnect_attempts == 0,
    {
        SshConfig {
            connect_timeout: 30,
            inactivity_timeout: 120,
            keepalive_interval: 30,
            reconnect_delay: 5,
            max_reconnect_delay: 300,
            max_reconnect_attempts: 0,
        }
    }
}

/// Where a connection with retries stands: how many attempts failed and
/// how long to wait before the next one.
#[derive(Debug, Clone, Copy, PartialEq, Eq, Structural)]
pub struct RetryState {
    pub attempts: u32,
    pub delay: u64,
}

/// What to do after a failed attempt.
#[derive(Debug, Clone, Copy, PartialEq, Eq, Structural)]
pub enum RetryDecision {
    /// Wait this many seconds, then try again.
    RetryAfter(u64),
    /// Stop: this many attempts failed.
    GiveUp(u32),
}

/// The delay after `delay`: doubled, but no more than `max`.
pub open spec fn next_delay(delay: u64, max: u64) -> u64 {
    if delay * 2 <= max {
        (delay * 2) as u64
    } else {
        max
    }
}

impl RetryState {
    /// The state before the first attempt.
    pub fn new(config: &SshConfig) -> (r: Self)
        ensures
            r.attempts == 0,
            r.delay == config.reconnect_delay,
    {
        RetryState { attempts: 0, delay: config.reconnect_delay }
    }

    /// Takes note of a failed attempt. With a limit on attempts (not 0),
    /// reaching it gives up; otherwise wait the current delay, and the delay
    /// doubles up to the maximum.
    pub fn on_failure(&mut self, config: &SshConfig) -> (r: RetryDecision)
        requires
            old(self).attempts < u32::MAX,
            old(self).delay * 2 <= u64::MAX,
        ensures
            final(self).attempts == old(self).attempts + 1,
            config.max_reconnect_attempts > 0 && final(self).attempts
                >= config.max_reconnect_attempts ==> r == RetryDecision::GiveUp(final(self).attempts)
                && final(self).delay == old(self).delay,
            !(config.max_reconnect_attempts > 0 && final(self).attempts
                >= config.max_reconnect_attempts) ==> r == RetryDecision::RetryAfter(old(self).delay)
                && final(self).delay == next_delay(old(self).delay, config.max_reconnect_delay),
    {
        self.attempts = self.attempts + 1;
        if config.max_reconnect_attempts > 0 && self.attempts >= config.max_reconnect_attempts {
            return RetryDecision::GiveUp(self.attempts);
        }
        let wait = self.delay;
        let doubled = self.delay * 2;
        self.delay = if doubled <= config.max_reconnect_delay {
            doubled
        } else {
            config.max_reconnect_delay
        };
        RetryDecision::RetryAfter(wait)
    }
}

/// The back-off never waits longer than the larger of the first delay and
/// the maximum: once a delay is within the maximum, every later one is.
pub proof fn lemma_delay_bounded(delay: u64, max: u64)
    requires
        delay * 2 <= u64::MAX,
        delay <= max,
    ensures
        next_delay(delay, max) <= max,
        next_delay(delay, max) >= delay,
{
}

/// With no limit on attempts the probe never gives up.
pub proof fn lemma_unlimited_never_gives_up(config: SshConfig, attempts: u32)
    requires
        config.max_reconnect_attempts == 0,
    ensures
        !(config.max_reconnect_attempts > 0 && attempts >= config.max_reconnect_attempts),
{
}

// ---------------------------------------------------------------------
// Server addresses
// ---------------------------------------------------------------------

/// `s.parse::<u16>().ok()`.
pub open spec fn u16_opt(s: Seq<char>) -> Option<u16> {
    match spec_parse_unsigned(s, u16::MAX as int) {
        Some(v) => Some(v as u16),
        None => None,
    }
}

/// The host and port of a server address: `[v6]:port`, `[v6]`,
/// `host:port`, or a bare host; the port is 443 where none reads.
pub open spec fn spec_parse_server(s: Seq<char>) -> (Seq<char>, u16) {
    if s.len() > 0 && s[0] == '[' && crate::text::spec_split_once(s.drop_first(), ']') is Some {
        let (host, tail) = crate::text::spec_split_once(s.drop_first(), ']')->0;
        if tail.len() > 0 && tail[0] == ':' && u16_opt(tail.drop_first()) is Some {
            (host, u16_opt(tail.drop_first())->0)
        } else {
            (host, 443)
        }
    } else {
        match spec_rsplit_once(s, ':') {
            Some((host, port)) => match u16_opt(port) {
                Some(p) => (host, p),
                None => (s, 443),
            },
            None => (s, 443),
        }
    }
}

/// Splits a server address into host and port.
pub fn parse_server(server: &str) -> (r: (String, u16))
    ensures
        (r.0@, r.1) == spec_parse_server(server@),
{
    if starts_with_char(server, '[') {
        let v = chars_of(server);
        let rest = string_of_range(&v, 1, v.len());
        assert(rest@ =~= server@.drop_first());
        if let Some((host, tail)) = crate::text::split_once_char(rest.as_str(), ']') {
            if starts_with_char(tail.as_str(), ':') {
                let tv = chars_of(tail.as_str());
                let port_text = string_of_range(&tv, 1, tv.len());
                assert(port_text@ =~= tail@.drop_first());
                if let Some(port) = parse_u16(port_text.as_str()) {
                    return (host, port);
                }
            }
            return (host, 443);
        }
    }
    match rsplit_once_char(server, ':') {
        Some((host, port_text)) => match parse_u16(port_text.as_str()) {
            Some(p) => (host, p),
            None => (String::from_str(server), 443),
        },
        None => (String::from_str(server), 443),
    }
}

// ---------------------------------------------------------------------
// Registration message
// ---------------------------------------------------------------------

/// Probe information sent with `INIT` to a registration server.
#[derive(Debug, Clone)]
pub struct ProbeInitInfo {
    /// Firmware version (e.g., 5120)
    pub firmware_version: u32,
    /// Reason for registration (e.g., "NEW", "REREG_TIMER_EXPIRED")
    pub reason: String,
}

impl ProbeInitInfo {
    /// Probe information for a new registration.
    pub fn new(firmware_version: u32) -> (r: Self)
        ensures
            r.firmware_version == firmware_version,
            r.reason@ == "NEW"@,
    {
        ProbeInitInfo { firmware_version, reason: String::from_str("NEW") }
    }

    /// Probe information for a re-registration, with its reason.
    pub fn reregister(firmware_version: u32, reason: &str) -> (r: Self)
        ensures
            r.firmware_version == firmware_version,
            r.reason@ == reason@,
    {
        ProbeInitInfo { firmware_version, reason: String::from_str(reason) }
    }

    /// The `P_TO_R_INIT` message sent on `INIT`'s input, in the software
    /// probe format: `TOKEN_SPECS fluffy 1000 <fw> <sub_arch>`, then the
    /// reason.
    pub fn to_init_message(&self, sub_arch: &str) -> (r: String)
        ensures
            r@ == "P_TO_R_INIT\n"@ + "TOKEN_SPECS fluffy 1000 "@ + decimal(
                self.firmware_version as nat,
            ) + " "@ + sub_arch@ + "\n"@ + "REASON_FOR_REGISTRATION "@ + self.reason@ + "\n"@,
    {
        let mut msg = concat("P_TO_R_INIT\n", "TOKEN_SPECS fluffy 1000 ");
        push_decimal(&mut msg, self.firmware_version as u64);
        msg.append(" ");
        msg.append(sub_arch);
        msg.append("\n");
        msg.append("REASON_FOR_REGISTRATION ");
        msg.append(self.reason.as_str());
        msg.append("\n");
        msg
    }
}

/// The sub-architecture sent at registration:
/// `<os_id>/<os_version>/<arch>/starla/<version>`.
pub fn format_sub_arch(os_id: &str, os_version: &str, arch: &str, version: &str) -> (r: String)
    ensures
        r@ == os_id@ + "/"@ + os_version@ + "/"@ + arch@ + "/starla/"@ + version@,
{
    let mut s = concat(os_id, "/");
    s.append(os_version);
    s.append("/");
    s.append(arch);
    s.append("/starla/");
    s.append(version);
    s
}

/// Whether `c` is a quote character that os-release values may carry.
pub open spec fn is_quote(c: char) -> bool {
    c == '"' || c == '\''
}

/// Number of leading quote characters.
pub open spec fn leading_quotes(s: Seq<char>) -> nat
    decreases s.len(),
{
    if s.len() > 0 && is_quote(s[0]) {
        1 + leading_quotes(s.drop_first())
    } else {
        0
    }
}

/// Number of trailing quote characters.
pub open spec fn trailing_quotes(s: Seq<char>) -> nat
    decreases s.len(),
{
    if s.len() > 0 && is_quote(s.last()) {
        1 + trailing_quotes(s.drop_last())
    } else {
        0
    }
}

/// `s.trim_matches` of the quote characters.
pub open spec fn trim_quotes(s: Seq<char>) -> Seq<char> {
    let t = s.skip(leading_quotes(s) as int);
    t.take(t.len() - trailing_quotes(t))
}

proof fn lemma_leading_quotes_bound(s: Seq<char>)
    ensures
        leading_quotes(s) <= s.len(),
    decreases s.len(),
{
    if s.len() > 0 && is_quote(s[0]) {
        lemma_leading_quotes_bound(s.drop_first());
    }
}

proof fn lemma_trailing_quotes_bound(s: Seq<char>)
    ensures
        trailing_quotes(s) <= s.len(),
    decreases s.len(),
{
    if s.len() > 0 && is_quote(s.last()) {
        lemma_trailing_quotes_bound(s.drop_last());
    }
}

fn trim_quotes_exec(s: &str) -> (r: String)
    ensures
        r@ == trim_quotes(s@),
{
    let v = chars_of(s);
    let mut lo: usize = 0;
    assert(s@.skip(0) =~= s@);
    while lo < v.len() && (v[lo] == '"' || v[lo] == '\'')
        invariant
            v@ == s@,
            lo <= v@.len(),
            leading_quotes(s@) == lo + leading_quotes(s@.skip(lo as int)),
        decreases v.len() - lo,
    {
        assert(s@.skip(lo as int).drop_first() =~= s@.skip(lo as int + 1));
        lo = lo + 1;
    }
    let ghost t = s@.skip(lo as int);
    assert(v@.subrange(lo as int, v@.len() as int) =~= t);
    let mut hi: usize = v.len();
    while hi > lo && (v[hi - 1] == '"' || v[hi - 1] == '\'')
        invariant
            v@ == s@,
            lo <= hi <= v@.len(),
            t == s@.skip(lo as int),
            trailing_quotes(t) == (v@.len() - hi) + trailing_quotes(
                v@.subrange(lo as int, hi as int),
            ),
        decreases hi,
    {
        assert(v@.subrange(lo as int, hi as int).drop_last() =~= v@.subrange(
            lo as int,
            hi as int - 1,
        ));
        hi = hi - 1;
    }
    proof {
        assert(t.take(t.len() - trailing_quotes(t)) =~= v@.subrange(lo as int, hi as int));
    }
    string_of_range(&v, lo, hi)
}

/// `ID` and `VERSION_ID` of an os-release file read so far (the last
/// line that sets each wins).
pub open spec fn os_release_scan(lines: Seq<Seq<char>>) -> (Option<Seq<char>>, Option<Seq<char>>)
    decreases lines.len(),
{
    if lines.len() == 0 {
        (None, None)
    } else {
        let (id, ver) = os_release_scan(lines.drop_last());
        match crate::text::spec_split_once(lines.last(), '=') {
            Some((k, v)) => {
                let key = spec_trim(k);
                let value = trim_quotes(spec_trim(v));
                if key == "ID"@ {
                    (Some(value), ver)
                } else if key == "VERSION_ID"@ {
                    (id, Some(value))
                } else {
                    (id, ver)
                }
            },
            None => (id, ver),
        }
    }
}

/// Reads `ID` and `VERSION_ID` from the text of `/etc/os-release`; each is
/// `None` where no line sets it.
pub fn parse_os_release(content: &str) -> (r: (Option<String>, Option<String>))
    ensures
        (crate::paths::opt_seq(r.0), crate::paths::opt_seq(r.1)) == os_release_scan(
            spec_lines(content@),
        ),
{
    let lines = split_lines(content);
    let ghost ls = lines.deep_view();
    let mut id: Option<String> = None;
    let mut ver: Option<String> = None;
    let mut i: usize = 0;
    while i < lines.len()
        invariant
            i <= lines@.len(),
            ls == lines.deep_view(),
            ls == spec_lines(content@),
            (crate::paths::opt_seq(id), crate::paths::opt_seq(ver)) == os_release_scan(
                ls.take(i as int),
            ),
        decreases lines.len() - i,
    {
        assert(ls.take(i as int + 1).drop_last() =~= ls.take(i as int));
        assert(ls.take(i as int + 1).last() == lines@[i as int]@);
        if let Some((k, v)) = crate::text::split_once_char(lines[i].as_str(), '=') {
            let key = trim(k.as_str());
            let tv = trim(v.as_str());
            let value = trim_quotes_exec(tv.as_str());
            if str_eq(key.as_str(), "ID") {
                id = Some(value);
            } else if str_eq(key.as_str(), "VERSION_ID") {
                ver = Some(value);
            }
        }
        i = i + 1;
    }
    assert(ls.take(ls.len() as int) =~= ls);
    (id, ver)
}

/// The operating system id and version to report: those read, or
/// `generic` and `unknown`.
pub fn os_id_version(id: Option<String>, version: Option<String>) -> (r: (String, String))
    ensures
        r.0@ == (match id {
            Some(s) => s@,
            None => "generic"@,
        }),
        r.1@ == (match version {
            Some(s) => s@,
            None => "unknown"@,
        }),
{
    let a = match id {
        Some(s) => s,
        None => String::from_str("generic"),
    };
    let b = match version {
        Some(s) => s,
        None => String::from_str("unknown"),
    };
    (a, b)
}

// ---------------------------------------------------------------------
// The answer to INIT
// ---------------------------------------------------------------------

/// Controller information returned from INIT.
#[derive(Debug, Clone)]
pub struct ControllerInfo {
    pub host: String,
    pub port: u16,
    pub probe_id: u32,
}

/// What INIT answered.
#[derive(Debug, Clone)]
pub enum InitResponse {
    /// Registration server responded with controller assignment
    Controller(ControllerInfo),
    /// Controller responded with remote port and session ID (ready for KEEP)
    ControllerReady { remote_port: u16, session_id: String },
    /// A plain `OK`: the probe key is recognized but not yet fully
    /// registered (from a registration server)
    Acknowledged,
    /// Server tells us to wait and retry after timeout seconds
    Wait { timeout_secs: u32 },
}

/// Why an answer to INIT could not be read.
#[derive(Debug, Clone)]
pub enum InitError {
    /// The answer held no line.
    Empty,
    /// The first line was neither `OK` nor `WAIT`; the whole answer.
    Unknown(String),
}

/// An INIT answer as its text reads.
pub enum InitView {
    Controller(Seq<char>, u16, u32),
    ControllerReady(u16, Seq<char>),
    Acknowledged,
    Wait(u32),
}

/// An INIT failure as its text reads.
pub enum InitErrorView {
    Empty,
    Unknown(Seq<char>),
}

impl View for InitResponse {
    type V = InitView;

    open spec fn view(&self) -> InitView {
        match self {
            InitResponse::Controller(c) => InitView::Controller(c.host@, c.port, c.probe_id),
            InitResponse::ControllerReady { remote_port, session_id } => InitView::ControllerReady(
                *remote_port,
                session_id@,
            ),
            InitResponse::Acknowledged => InitView::Acknowledged,
            InitResponse::Wait { timeout_secs } => InitView::Wait(*timeout_secs),
        }
    }
}

impl View for InitError {
    type V = InitErrorView;

    open spec fn view(&self) -> InitErrorView {
        match self {
            InitError::Empty => InitErrorView::Empty,
            InitError::Unknown(s) => InitErrorView::Unknown(s@),
        }
    }
}

impl InitError {
    /// The message of the error.
    pub fn message(&self) -> (r: String)
        ensures
            r@ == (match self@ {
                InitErrorView::Empty => "Empty INIT response"@,
                InitErrorView::Unknown(s) => "Unknown INIT response: "@ + s,
            }),
    {
        match self {
            InitError::Empty => String::from_str("Empty INIT response"),
            InitError::Unknown(s) => concat("Unknown INIT response: ", s.as_str()),
        }
    }
}

/// `s.parse::<u32>().ok()`.
pub open spec fn u32_parse(s: Seq<char>) -> Option<u32> {
    match spec_parse_unsigned(s, u32::MAX as int) {
        Some(v) => Some(v as u32),
        None => None,
    }
}

/// The controller host, port and probe id that the lines after `OK` set:
/// `CONTROLLER <host> <port> <keytype> <key>` sets host and port (the
/// port `None` when it does not read), `PROBE_ID <id>` the id; later lines
/// win.
pub open spec fn scan_controller(lines: Seq<Seq<char>>) -> (Option<Seq<char>>, Option<u16>, u32)
    decreases lines.len(),
{
    if lines.len() == 0 {
        (None, None, 0)
    } else {
        let (h, p, id) = scan_controller(lines.drop_last());
        let parts = spec_split_whitespace(lines.last());
        let (h2, p2) = if parts.len() >= 4 && parts[0] == "CONTROLLER"@ {
            (Some(parts[1]), u16_opt(parts[2]))
        } else {
            (h, p)
        };
        let id2 = if parts.len() >= 2 && parts[0] == "PROBE_ID"@ {
            match u32_parse(parts[1]) {
                Some(v) => v,
                None => id,
            }
        } else {
            id
        };
        (h2, p2, id2)
    }
}

/// The remote port and session id that the lines after `OK` set:
/// `REMOTE_PORT <port>` (`None` when it does not read) and
/// `SESSION_ID <id>`; later lines win.
pub open spec fn scan_session(lines: Seq<Seq<char>>) -> (Option<u16>, Option<Seq<char>>)
    decreases lines.len(),
{
    if lines.len() == 0 {
        (None, None)
    } else {
        let (p, s) = scan_session(lines.drop_last());
        let parts = spec_split_whitespace(lines.last());
        let p2 = if parts.len() >= 2 && parts[0] == "REMOTE_PORT"@ {
            u16_opt(parts[1])
        } else {
            p
        };
        let s2 = if parts.len() >= 2 && parts[0] == "SESSION_ID"@ {
            Some(parts[1])
        } else {
            s
        };
        (p2, s2)
    }
}

/// The wait that the lines after `WAIT` ask for: the first
/// `TIMEOUT <secs>` line, 60 when its number does not read or there is
/// none.
pub open spec fn first_timeout(lines: Seq<Seq<char>>) -> u32
    decreases lines.len(),
{
    if lines.len() == 0 {
        60
    } else {
        let parts = spec_split_whitespace(lines[0]);
        if parts.len() >= 2 && parts[0] == "TIMEOUT"@ {
            match u32_parse(parts[1]) {
                Some(v) => v,
                None => 60,
            }
        } else {
            first_timeout(lines.drop_first())
        }
    }
}

/// What an answer to INIT means.
///
/// The first line, trimmed, decides: `OK` followed by a controller
/// assignment (registration server), or by a remote port and session id
/// (controller), or by neither; `WAIT` with a timeout. Anything else is an
/// error, as is an answer without lines.
pub open spec fn spec_init_response(output: Seq<char>) -> Result<InitView, InitErrorView> {
    let lines = spec_lines(output);
    if lines.len() == 0 {
        Err(InitErrorView::Empty)
    } else {
        let first = spec_trim(lines[0]);
        let rest = lines.drop_first();
        if first == "OK"@ {
            let (h, p, id) = scan_controller(rest);
            if h is Some && p is Some {
                Ok(InitView::Controller(h->0, p->0, id))
            } else {
                let (rp, sid) = scan_session(rest);
                if rp is Some && sid is Some {
                    Ok(InitView::ControllerReady(rp->0, sid->0))
                } else {
                    Ok(InitView::Acknowledged)
                }
            }
        } else if first == "WAIT"@ {
            Ok(InitView::Wait(first_timeout(rest)))
        } else {
            Err(InitErrorView::Unknown(output))
        }
    }
}

/// Reads the answer to INIT.
pub fn parse_init_response(output: &str) -> (r: Result<InitResponse, InitError>)
    ensures
        match r {
            Ok(v) => spec_init_response(output@) == Ok::<InitView, InitErrorView>(v@),
            Err(e) => spec_init_response(output@) == Err::<InitView, InitErrorView>(e@),
        },
{
    let lines = split_lines(output);
    let ghost ls = lines.deep_view();
    if lines.len() == 0 {
        return Err(InitError::Empty);
    }
    let ghost rest = ls.drop_first();
    assert(ls[0] == lines@[0]@);
    let first = trim(lines[0].as_str());
    if str_eq(first.as_str(), "OK") {
        let mut host: Option<String> = None;
        let mut port: Option<u16> = None;
        let mut probe_id: u32 = 0;
        let mut i: usize = 1;
        while i < lines.len()
            invariant
                1 <= i <= lines@.len(),
                ls == lines.deep_view(),
                rest == ls.drop_first(),
                (crate::paths::opt_seq(host), port, probe_id) == scan_controller(
                    rest.take(i - 1),
                ),
            decreases lines.len() - i,
        {
            assert(rest.take(i as int).drop_last() =~= rest.take(i - 1));
            assert(rest.take(i as int).last() == lines@[i as int]@);
            let parts = split_whitespace(lines[i].as_str());
            let ghost ps = parts.deep_view();
            if parts.len() >= 4 && str_eq(parts[0].as_str(), "CONTROLLER") {
                assert(ps[0] == parts@[0]@ && ps[1] == parts@[1]@ && ps[2] == parts@[2]@);
                host = Some(parts[1].clone());
                port = parse_u16(parts[2].as_str());
            }
            if parts.len() >= 2 && str_eq(parts[0].as_str(), "PROBE_ID") {
                assert(ps[0] == parts@[0]@ && ps[1] == parts@[1]@);
                if let Some(id) = parse_u32(parts[1].as_str()) {
                    probe_id = id;
                }
            }
            proof {
                if parts@.len() >= 1 {
                    assert(ps[0] == parts@[0]@);
                }
            }
            i = i + 1;
        }
        assert(rest.take(lines@.len() - 1) =~= rest);
        if host.is_some() && port.is_some() {
            return Ok(
                InitResponse::Controller(
                    ControllerInfo { host: host.unwrap(), port: port.unwrap(), probe_id },
                ),
            );
        }
        let mut remote_port: Option<u16> = None;
        let mut session_id: Option<String> = None;
        let mut j: usize = 1;
        while j < lines.len()
            invariant
                1 <= j <= lines@.len(),
                ls == lines.deep_view(),
                rest == ls.drop_first(),
                (remote_port, crate::paths::opt_seq(session_id)) == scan_session(
                    rest.take(j - 1),
                ),
            decreases lines.len() - j,
        {
            assert(rest.take(j as int).drop_last() =~= rest.take(j - 1));
            assert(rest.take(j as int).last() == lines@[j as int]@);
            let parts = split_whitespace(lines[j].as_str());
            let ghost ps = parts.deep_view();
            if parts.len() >= 2 && str_eq(parts[0].as_str(), "REMOTE_PORT") {
                assert(ps[0] == parts@[0]@ && ps[1] == parts@[1]@);
                remote_port = parse_u16(parts[1].as_str());
            }
            if parts.len() >= 2 && str_eq(parts[0].as_str(), "SESSION_ID") {
                assert(ps[0] == parts@[0]@ && ps[1] == parts@[1]@);
                session_id = Some(parts[1].clone());
            }
            proof {
                if parts@.len() >= 1 {
                    assert(ps[0] == parts@[0]@);
                }
            }
            j = j + 1;
        }
        assert(rest.take(lines@.len() - 1) =~= rest);
        if remote_port.is_some() && session_id.is_some() {
            return Ok(
                InitResponse::ControllerReady {
                    remote_port: remote_port.unwrap(),
                    session_id: session_id.unwrap(),
                },
            );
        }
        Ok(InitResponse::Acknowledged)
    } else if str_eq(first.as_str(), "WAIT") {
        let mut timeout_secs: u32 = 60;
        let mut k: usize = 1;
        assert(rest.skip(0) =~= rest);
        while k < lines.len()
            invariant
                1 <= k <= lines@.len(),
                ls == lines.deep_view(),
                rest == ls.drop_first(),
                timeout_secs == 60,
                first_timeout(rest) == first_timeout(rest.skip(k - 1)),
                ls == spec_lines(output@),
                spec_trim(ls[0]) == "WAIT"@,
                spec_trim(ls[0]) != "OK"@,
            decreases lines.len() - k,
        {
            assert(rest.skip(k - 1)[0] == lines@[k as int]@);
            assert(rest.skip(k - 1).drop_first() =~= rest.skip(k as int));
            let parts = split_whitespace(lines[k].as_str());
            let ghost ps = parts.deep_view();
            if parts.len() >= 2 && str_eq(parts[0].as_str(), "TIMEOUT") {
                assert(ps[0] == parts@[0]@ && ps[1] == parts@[1]@);
                let t = match parse_u32(parts[1].as_str()) {
                    Some(v) => v,
                    None => 60,
                };
                return Ok(InitResponse::Wait { timeout_secs: t });
            }
            proof {
                if parts@.len() >= 1 {
                    assert(ps[0] == parts@[0]@);
                }
            }
            k = k + 1;
        }
        assert(rest.skip(lines@.len() - 1) =~= Seq::<Seq<char>>::empty());
        Ok(InitResponse::Wait { timeout_secs })
    } else {
        Err(InitError::Unknown(String::from_str(output)))
    }
}

/// The outcome of a registration.
#[derive(Debug)]
pub enum RegistrationResult {
    /// Successfully registered with a controller
    Registered(ControllerInfo, ProbeId),
    /// Controller ready with remote port and session ID
    ControllerReady { remote_port: u16, session_id: String },
    /// Key recognized but not yet fully registered
    Pending,
    /// Server requested wait before retry
    Wait { timeout_secs: u32 },
}

/// What a registration server's answer to INIT means for the probe.
pub fn registration_result(response: InitResponse) -> (r: RegistrationResult)
    ensures
        match response {
            InitResponse::Controller(info) => r matches RegistrationResult::Registered(i, id)
                && i.host@ == info.host@ && i.port == info.port && i.probe_id == info.probe_id
                && id == ProbeId(info.probe_id),
            InitResponse::ControllerReady { remote_port, session_id } => r matches RegistrationResult::ControllerReady {
                remote_port: p,
                session_id: s,
            } && p == remote_port && s@ == session_id@,
            InitResponse::Acknowledged => r is Pending,
            InitResponse::Wait { timeout_secs } => r matches RegistrationResult::Wait {
                timeout_secs: t,
            } && t == timeout_secs,
        },
{
    match response {
        InitResponse::Controller(info) => {
            let id = ProbeId(info.probe_id);
            RegistrationResult::Registered(info, id)
        },
        InitResponse::ControllerReady { remote_port, session_id } => {
            RegistrationResult::ControllerReady { remote_port, session_id }
        },
        InitResponse::Acknowledged => RegistrationResult::Pending,
        InitResponse::Wait { timeout_secs } => RegistrationResult::Wait { timeout_secs },
    }
}

// ---------------------------------------------------------------------
// Key texts
// ---------------------------------------------------------------------

/// The bytes that standard base64 `s` decodes to: the bytes whose padded
/// base64 `s` is; `None` when `s` is no such text. (Padded base64 of
/// different bytes differs.)
pub open spec fn spec_base64_decode(s: Seq<char>) -> Option<Seq<u8>> {
    if exists|d: Seq<u8>| spec_base64(d) == s {
        Some(choose|d: Seq<u8>| spec_base64(d) == s)
    } else {
        None
    }
}

/// Decodes standard base64
/// (`base64::engine::general_purpose::STANDARD.decode`, which requires
/// canonical padding and zero trailing bits, so that it reads back exactly
/// the texts that its encoder writes); `None` on the crate's decode error.
#[verifier::external_body]
pub(crate) fn base64_decode(s: &str) -> (r: Option<Vec<u8>>)
    ensures
        match r {
            Some(b) => spec_base64_decode(s@) == Some(b@),
            None => spec_base64_decode(s@) is None,
        },
{
    match base64::engine::general_purpose::STANDARD.decode(s) {
        Ok(b) => Some(b),
        Err(_) => None,
    }
}

/// The SHA-256 digest of `data`, as the `sha2` crate computes it.
pub uninterp spec fn spec_sha256(data: Seq<u8>) -> Seq<u8>;

/// SHA-256 (`sha2::Sha256::digest`): 32 bytes.
#[verifier::external_body]
fn sha256(data: &[u8]) -> (r: Vec<u8>)
    ensures
        r@ == spec_sha256(data@),
        r@.len() == 32,
{
    sha2::Sha256::digest(data).to_vec()
}

/// Encodes in standard base64 without padding
/// (`base64::engine::general_purpose::STANDARD_NO_PAD.encode`).
#[verifier::external_body]
fn base64_encode_no_pad(data: &[u8]) -> (r: String)
    ensures
        r@ == spec_base64_no_pad(data@),
{
    base64::engine::general_purpose::STANDARD_NO_PAD.encode(data)
}

/// The fingerprint line of a key: its type, then `SHA256:` and the digest
/// in base64.
pub fn fingerprint_text(key_type: &str, digest_b64: &str) -> (r: String)
    ensures
        r@ == key_type@ + " SHA256:"@ + digest_b64@,
{
    let head = concat(key_type, " SHA256:");
    concat(head.as_str(), digest_b64)
}

/// The SHA-256 fingerprint of a public key given by its type name and its
/// base64 blob (the SSH wire form of the key): `<type> SHA256:<digest>`,
/// the digest of the decoded blob in unpadded base64. `None` when the blob
/// is not base64.
pub fn fingerprint_of_blob(key_type: &str, key_b64: &str) -> (r: Option<String>)
    ensures
        match spec_base64_decode(key_b64@) {
            Some(raw) => r matches Some(f) && f@ == spec_fingerprint(key_type@, raw),
            None => r is None,
        },
{
    match base64_decode(key_b64) {
        Some(raw) => {
            let digest = sha256(raw.as_slice());
            let fp = base64_encode_no_pad(digest.as_slice());
            Some(fingerprint_text(key_type, fp.as_str()))
        },
        None => None,
    }
}

/// The fingerprint line of a key whose wire form is `raw`.
pub open spec fn spec_fingerprint(key_type: Seq<char>, raw: Seq<u8>) -> Seq<char> {
    key_type + " SHA256:"@ + spec_base64_no_pad(spec_sha256(raw))
}

/// The `authorized_keys` line of a key: `<type> <blob> starla`.
pub open spec fn spec_openssh_line(key_type: Seq<char>, key_b64: Seq<char>) -> Seq<char> {
    key_type + " "@ + key_b64 + " starla"@
}

/// The public key in OpenSSH `authorized_keys` form, from its type name and
/// base64 blob: `<type> <blob> starla`.
pub fn openssh_public_line(key_type: &str, key_b64: &str) -> (r: String)
    ensures
        r@ == spec_openssh_line(key_type@, key_b64@),
{
    let mut s = concat(key_type, " ");
    s.append(key_b64);
    s.append(" starla");
    s
}

// ---------------------------------------------------------------------
// The probe's key
// ---------------------------------------------------------------------

/// An SSH private key of `russh` (its `ssh-key` type).
#[verifier::external_type_specification]
#[verifier::external_body]
pub struct ExPrivateKey(PrivateKey);

/// The error of `russh`'s key decoder.
#[verifier::external_type_specification]
#[verifier::external_body]
pub struct ExKeyDecodeError(RusshKeyError);

/// The error of the `ssh-key` crate.
#[verifier::external_type_specification]
#[verifier::external_body]
pub struct ExSshKeyError(SshKeyError);

/// What went wrong with a key: no key could be made, the text holds no key,
/// the key could not be written out, or its public blob is not base64.
#[derive(Debug, Clone, Copy, PartialEq, Eq, Structural)]
pub enum KeyError {
    Generate,
    Decode,
    Encode,
    Blob,
}

/// Whether no character of `s` is whitespace.
pub open spec fn no_whitespace(s: Seq<char>) -> bool {
    forall|i: int| 0 <= i < s.len() ==> !spec_is_whitespace(#[trigger] s[i])
}

/// A public key as plain values: its algorithm name (such as
/// `ssh-ed25519`), its SSH wire form, and that wire form in base64 (the
/// blob of `authorized_keys` and `known_hosts` lines).
#[derive(Debug, Clone)]
pub struct PublicKeyData {
    pub algorithm: String,
    pub wire: Vec<u8>,
    pub blob: String,
}

impl PublicKeyData {
    /// The parts agree: the name is not empty and the blob is the standard
    /// base64 of the wire form, which it decodes back to, with no
    /// whitespace in it.
    pub open spec fn wf(&self) -> bool {
        &&& self.algorithm@.len() > 0
        &&& self.blob@ == spec_base64(self.wire@)
        &&& spec_base64_decode(self.blob@) == Some(self.wire@)
        &&& no_whitespace(self.blob@)
    }
}

/// The SSH wire form of the Ed25519 public key `pk`: the string
/// `ssh-ed25519`, then the 32 key bytes as a string, each string after its
/// length as four big-endian bytes.
pub open spec fn ed25519_wire(pk: Seq<u8>) -> Seq<u8> {
    seq![0u8, 0u8, 0u8, 11u8] + seq![
        115u8, 115u8, 104u8, 45u8, 101u8, 100u8, 50u8, 53u8, 53u8, 49u8, 57u8,
    ] + seq![0u8, 0u8, 0u8, 32u8] + pk
}

/// The parts of a public key: `Algorithm::as_str` of its algorithm (never
/// empty: a known name, or a validated `name@domain`), its wire form
/// (`PublicKeyBase64::public_key_bytes`, the encoded key data) and
/// `public_key_base64`, which is the MIME base64 of those bytes with the
/// line breaks taken out: the standard padded base64 of them, which
/// decodes back to them and holds no whitespace.
#[verifier::external_body]
fn public_key_parts(key: &PublicKey) -> (r: (String, Vec<u8>, String))
    ensures
        r.0@.len() > 0,
        r.2@ == spec_base64(r.1@),
        spec_base64_decode(r.2@) == Some(r.1@),
        no_whitespace(r.2@),
{
    (key.algorithm().as_str().to_string(), key.public_key_bytes(), key.public_key_base64())
}

/// The plain parts of a public key.
pub fn public_key_data(key: &PublicKey) -> (r: PublicKeyData)
    ensures
        r.wf(),
{
    let (algorithm, wire, blob) = public_key_parts(key);
    PublicKeyData { algorithm, wire, blob }
}

/// The parts of an Ed25519 public key: the name `ssh-ed25519`, the wire form
/// of 32 key bytes, and its base64 blob as `public_key_parts` states it.
pub open spec fn fresh_ed25519_parts(p: (String, Vec<u8>, String)) -> bool {
    &&& p.0@ == "ssh-ed25519"@
    &&& p.2@ == spec_base64(p.1@)
    &&& spec_base64_decode(p.2@) == Some(p.1@)
    &&& no_whitespace(p.2@)
    &&& exists|pk: Seq<u8>| pk.len() == 32 && p.1@ == ed25519_wire(pk)
}

/// A new Ed25519 key from the thread's random generator
/// (`PrivateKey::random` with `rand::rng()`), with the parts of its public
/// key. For Ed25519 `random` makes the key pair from the generator, which
/// cannot fail, and its public half, which cannot fail for that algorithm,
/// and returns `Ok`. The public key is then `ssh-ed25519`, with the wire
/// form of its 32 key bytes; the parts are as `public_key_parts` states.
/// The key itself is chance.
#[verifier::external_body]
fn random_ed25519_key() -> (r: Result<(PrivateKey, (String, Vec<u8>, String)), SshKeyError>)
    ensures
        r is Ok,
        r is Ok ==> fresh_ed25519_parts((r->Ok_0).1),
{
    match PrivateKey::random(&mut rand::rng(), Algorithm::Ed25519) {
        Ok(k) => {
            let p = k.public_key();
            let parts = (p.algorithm().as_str().to_string(), p.public_key_bytes(), p.public_key_base64());
            Ok((k, parts))
        },
        Err(e) => Err(e),
    }
}

/// The public key of the private key that `russh::keys::decode_secret_key`
/// reads from the text `pem` without a passphrase: its algorithm name,
/// wire form and base64 blob; `None` when the text holds no key. The
/// decoder reads the text alone.
pub uninterp spec fn spec_pem_public(pem: Seq<char>) -> Option<(Seq<char>, Seq<u8>, Seq<char>)>;

/// Whether the parts of a public key agree, as `public_key_parts` states
/// them: the name is not empty, the blob is the standard base64 of the wire
/// form and decodes back to it, and holds no whitespace.
pub open spec fn key_parts_agree(p: (String, Vec<u8>, String)) -> bool {
    &&& p.0@.len() > 0
    &&& p.2@ == spec_base64(p.1@)
    &&& spec_base64_decode(p.2@) == Some(p.1@)
    &&& no_whitespace(p.2@)
}

/// Reads a private key from its text (`russh::keys::decode_secret_key`, no
/// passphrase), with the parts of its public key (`public_key`, then
/// `algorithm().as_str()`, `public_key_bytes` and `public_key_base64`, as
/// for `public_key_parts`). Whether it succeeds and the public key are
/// named by `spec_pem_public`; the private key itself is opaque.
#[verifier::external_body]
fn decode_secret_key(pem: &str) -> (r: Result<(PrivateKey, (String, Vec<u8>, String)), RusshKeyError>)
    ensures
        r is Ok <==> spec_pem_public(pem@) is Some,
        r is Ok ==> key_parts_agree((r->Ok_0).1),
        r is Ok ==> spec_pem_public(pem@) == Some(
            ((r->Ok_0).1.0@, (r->Ok_0).1.1@, (r->Ok_0).1.2@),
        ),
{
    let k = russh::keys::decode_secret_key(pem, None)?;
    let p = k.public_key();
    let parts = (p.algorithm().as_str().to_string(), p.public_key_bytes(), p.public_key_base64());
    Ok((k, parts))
}

/// An SSH public key (`russh::keys::PublicKey`, of the `ssh-key` crate).
#[verifier::external_type_specification]
#[verifier::external_body]
pub struct ExPublicKey(PublicKey);

/// The key in the OpenSSH private key format with `\n` line endings
/// (`PrivateKey::to_openssh`). Nothing is stated of the text.
#[verifier::external_body]
fn key_openssh_text(key: &PrivateKey) -> (r: Result<String, SshKeyError>) {
    match key.to_openssh(LineEnding::LF) {
        Ok(text) => Ok(text.to_string()),
        Err(e) => Err(e),
    }
}

/// The probe's key: the private key of `russh`, used to authenticate, and
/// the plain parts of its public key, from which every text about the key
/// is made.
pub struct ProbeKey {
    secret: PrivateKey,
    public: PublicKeyData,
}

impl ProbeKey {
    /// The parts of the public key agree.
    #[verifier::type_invariant]
    spec fn inv(&self) -> bool {
        self.public.wf()
    }

    /// The plain parts of the key's public key.
    pub closed spec fn public_view(&self) -> PublicKeyData {
        self.public
    }

    /// The plain parts of the key's public key.
    pub fn public_key(&self) -> (r: &PublicKeyData)
        ensures
            *r == self.public_view(),
            r.wf(),
    {
        proof {
            use_type_invariant(self);
        }
        &self.public
    }

    /// The private key, to authenticate with.
    pub fn private_key(&self) -> (r: &PrivateKey) {
        &self.secret
    }
}

/// Generates a new Ed25519 key pair. The key is random; making it does not
/// fail, and its public key is `ssh-ed25519` with the wire form of 32 key
/// bytes.
pub fn generate_key() -> (r: Result<ProbeKey, KeyError>)
    ensures
        r matches Ok(k) && k.public_view().wf() && k.public_view().algorithm@ == "ssh-ed25519"@
            && exists|pk: Seq<u8>| pk.len() == 32 && k.public_view().wire@ == ed25519_wire(pk),
{
    let made = random_ed25519_key();
    match made {
        Ok((secret, parts)) => {
            assert(fresh_ed25519_parts(parts));
            let (algorithm, wire, blob) = parts;
            assert(algorithm@ == parts.0@ && wire@ == parts.1@ && blob@ == parts.2@);
            proof {
                reveal_strlit("ssh-ed25519");
            }
            Ok(ProbeKey { secret, public: PublicKeyData { algorithm, wire, blob } })
        },
        Err(_) => Err(KeyError::Generate),
    }
}

/// Reads a key from its text (such as the content of a key file or of an
/// environment variable); `KeyError::Decode` when the text holds none.
pub fn load_key_from_string(pem: &str) -> (r: Result<ProbeKey, KeyError>)
    ensures
        r is Ok <==> spec_pem_public(pem@) is Some,
        r matches Err(e) ==> e == KeyError::Decode,
        r matches Ok(k) ==> k.public_view().wf() && spec_pem_public(pem@) == Some(
            (k.public_view().algorithm@, k.public_view().wire@, k.public_view().blob@),
        ),
{
    let decoded = decode_secret_key(pem);
    match decoded {
        Ok((secret, parts)) => {
            assert(key_parts_agree(parts));
            let (algorithm, wire, blob) = parts;
            assert(algorithm@ == parts.0@ && wire@ == parts.1@ && blob@ == parts.2@);
            Ok(ProbeKey { secret, public: PublicKeyData { algorithm, wire, blob } })
        },
        Err(_) => Err(KeyError::Decode),
    }
}

/// The probe's public key in OpenSSH `authorized_keys` form: the key's
/// algorithm name, its base64 blob and `starla`, the string to paste into
/// the registration form and the content of `probe_key.pub`.
pub fn public_key_openssh(key: &ProbeKey) -> (r: String)
    ensures
        r@ == spec_openssh_line(key.public_view().algorithm@, spec_base64(key.public_view().wire@)),
{
    let p = key.public_key();
    openssh_public_line(p.algorithm.as_str(), p.blob.as_str())
}

/// The SHA-256 fingerprint of the key: `<type> SHA256:<digest>`, the digest
/// of the public key's wire form in unpadded base64. The blob of a key
/// always decodes, so this does not fail.
pub fn key_fingerprint(key: &ProbeKey) -> (r: Result<String, KeyError>)
    ensures
        r matches Ok(f) && f@ == spec_fingerprint(key.public_view().algorithm@, key.public_view().wire@),
{
    let p = key.public_key();
    match fingerprint_of_blob(p.algorithm.as_str(), p.blob.as_str()) {
        Some(f) => Ok(f),
        None => Err(KeyError::Blob),
    }
}

/// The two files of a key: the public key line (for `probe_key.pub`) and
/// the private key in the OpenSSH format; `KeyError::Encode` when the key
/// cannot be written out.
pub fn key_file_texts(key: &ProbeKey) -> (r: Result<(String, String), KeyError>)
    ensures
        match r {
            Ok((public, _)) => public@ == spec_openssh_line(
                key.public_view().algorithm@,
                spec_base64(key.public_view().wire@),
            ),
            Err(e) => e == KeyError::Encode,
        },
{
    let public = public_key_openssh(key);
    match key_openssh_text(key.private_key()) {
        Ok(private) => Ok((public, private)),
        Err(_) => Err(KeyError::Encode),
    }
}

/// The error when no registration server could be reached: how many were
/// tried, or that none is configured.
pub fn servers_unreachable_message(count: usize) -> (r: String)
    ensures
        count == 0 ==> r@ == "no registration servers configured"@,
        count > 0 ==> r@ == "failed to connect to any of "@ + decimal(count as nat)
            + " registration servers"@,
{
    if count == 0 {
        String::from_str("no registration servers configured")
    } else {
        let mut s = String::from_str("failed to connect to any of ");
        push_decimal(&mut s, count as u64);
        s.append(" registration servers");
        s
    }
}

} // verus!
