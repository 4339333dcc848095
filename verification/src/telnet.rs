//! The controller's command channel: the Atlas telnet login, the command
//! lines it carries (JSON specifications and busybox `CRONLINE`s), and the
//! measurement specifications they describe.
use crate::ipaddr::{is_ip_addr, spec_is_ip_addr};
use crate::json::as_str;
use crate::text::{
    chars_of, concat, debug_list, ends_with_char, is_prefix, parse_u16, parse_u32,
    parse_u64, parse_u8, push_char, spec_debug_list, spec_parse_i64, spec_parse_unsigned,
    starts_with, starts_with_char, str_eq, string_of_range,
};
use vstd::prelude::*;

verus! {

// ---------------------------------------------------------------------
// Measurement specifications
// ---------------------------------------------------------------------

/// Common scheduling fields for recurring measurements.
#[derive(Debug, Clone, Copy, Default, PartialEq, Eq)]
pub struct ScheduleSpec {
    /// Interval between measurements in seconds (0 = one-shot)
    pub interval: u64,
    /// Start time (Unix timestamp, 0 = now)
    pub start_time: i64,
    /// Stop time (Unix timestamp, 0 = never)
    pub stop_time: i64,
}

/// Ping measurement specification.
#[derive(Debug, Clone)]
pub struct PingSpec {
    pub msm_id: u64,
    pub target: String,
    pub af: u8,
    pub packets: u32,
    pub size: u16,
    pub packet_interval: u32,
    pub spread: Option<u32>,
    pub schedule: ScheduleSpec,
}

/// Traceroute measurement specification.
#[derive(Debug, Clone)]
pub struct TracerouteSpec {
    pub msm_id: u64,
    pub target: String,
    pub af: u8,
    pub protocol: String,
    pub paris: Option<u32>,
    pub first_hop: u8,
    pub max_hops: u8,
    pub size: u16,
    pub spread: Option<u32>,
    pub schedule: ScheduleSpec,
}

/// DNS measurement specification.
#[derive(Debug, Clone)]
pub struct DnsSpec {
    pub msm_id: u64,
    pub target: String,
    pub af: u8,
    pub protocol: String,
    pub query_type: String,
    pub query_class: String,
    pub query_argument: String,
    pub use_dnssec: bool,
    pub recursion_desired: bool,
    /// Whether to ask the resolver that the system names (`--resolv` with
    /// no server); the target is then empty.
    pub system_resolver: bool,
    pub spread: Option<u32>,
    pub schedule: ScheduleSpec,
}

/// HTTP measurement specification.
#[derive(Debug, Clone)]
pub struct HttpSpec {
    pub msm_id: u64,
    pub url: String,
    pub method: String,
    pub af: u8,
    pub headers: Vec<String>,
    pub body: Option<String>,
    pub max_body_size: Option<u32>,
    pub spread: Option<u32>,
    pub schedule: ScheduleSpec,
}

/// TLS/SSL measurement specification.
#[derive(Debug, Clone)]
pub struct TlsSpec {
    pub msm_id: u64,
    pub target: String,
    pub port: u16,
    pub af: u8,
    pub hostname: Option<String>,
    pub spread: Option<u32>,
    pub schedule: ScheduleSpec,
}

/// NTP measurement specification.
#[derive(Debug, Clone)]
pub struct NtpSpec {
    pub msm_id: u64,
    pub target: String,
    pub af: u8,
    pub packets: u32,
    pub spread: Option<u32>,
    pub schedule: ScheduleSpec,
}

/// A command received from the controller.
#[derive(Debug, Clone)]
pub enum TelnetCommand {
    /// Ping measurement
    Ping(PingSpec),
    /// Traceroute measurement
    Traceroute(TracerouteSpec),
    /// DNS measurement
    Dns(DnsSpec),
    /// HTTP measurement
    Http(HttpSpec),
    /// TLS/SSL measurement
    Tls(TlsSpec),
    /// NTP measurement
    Ntp(NtpSpec),
    /// Status query
    Status,
    /// Stop a running measurement
    Stop(u64),
    /// Known but not handled (CRONTAB, internal commands)
    Ignored(String),
    /// Not understood
    Unknown(String),
}

pub struct PingView {
    pub msm_id: u64,
    pub target: Seq<char>,
    pub af: u8,
    pub packets: u32,
    pub size: u16,
    pub packet_interval: u32,
    pub spread: Option<u32>,
    pub schedule: ScheduleSpec,
}

pub struct TracerouteView {
    pub msm_id: u64,
    pub target: Seq<char>,
    pub af: u8,
    pub protocol: Seq<char>,
    pub paris: Option<u32>,
    pub first_hop: u8,
    pub max_hops: u8,
    pub size: u16,
    pub spread: Option<u32>,
    pub schedule: ScheduleSpec,
}

pub struct DnsView {
    pub msm_id: u64,
    pub target: Seq<char>,
    pub af: u8,
    pub protocol: Seq<char>,
    pub query_type: Seq<char>,
    pub query_class: Seq<char>,
    pub query_argument: Seq<char>,
    pub use_dnssec: bool,
    pub recursion_desired: bool,
    pub system_resolver: bool,
    pub spread: Option<u32>,
    pub schedule: ScheduleSpec,
}

pub struct HttpView {
    pub msm_id: u64,
    pub url: Seq<char>,
    pub method: Seq<char>,
    pub af: u8,
    pub headers: Seq<Seq<char>>,
    pub body: Option<Seq<char>>,
    pub max_body_size: Option<u32>,
    pub spread: Option<u32>,
    pub schedule: ScheduleSpec,
}

pub struct TlsView {
    pub msm_id: u64,
    pub target: Seq<char>,
    pub port: u16,
    pub af: u8,
    pub hostname: Option<Seq<char>>,
    pub spread: Option<u32>,
    pub schedule: ScheduleSpec,
}

pub struct NtpView {
    pub msm_id: u64,
    pub target: Seq<char>,
    pub af: u8,
    pub packets: u32,
    pub spread: Option<u32>,
    pub schedule: ScheduleSpec,
}

/// A command as its text fields read.
pub enum CommandView {
    Ping(PingView),
    Traceroute(TracerouteView),
    Dns(DnsView),
    Http(HttpView),
    Tls(TlsView),
    Ntp(NtpView),
    Status,
    Stop(u64),
    Ignored(Seq<char>),
    Unknown(Seq<char>),
}

/// The text of an optional string.
pub open spec fn opt_text(o: Option<String>) -> Option<Seq<char>> {
    match o {
        Some(s) => Some(s@),
        None => None,
    }
}

impl View for PingSpec {
    type V = PingView;

    open spec fn view(&self) -> PingView {
        PingView {
            msm_id: self.msm_id,
            target: self.target@,
            af: self.af,
            packets: self.packets,
            size: self.size,
            packet_interval: self.packet_interval,
            spread: self.spread,
            schedule: self.schedule,
        }
    }
}

impl View for TracerouteSpec {
    type V = TracerouteView;

    open spec fn view(&self) -> TracerouteView {
        TracerouteView {
            msm_id: self.msm_id,
            target: self.target@,
            af: self.af,
            protocol: self.protocol@,
            paris: self.paris,
            first_hop: self.first_hop,
            max_hops: self.max_hops,
            size: self.size,
            spread: self.spread,
            schedule: self.schedule,
        }
    }
}

impl View for DnsSpec {
    type V = DnsView;

    open spec fn view(&self) -> DnsView {
        DnsView {
            msm_id: self.msm_id,
            target: self.target@,
            af: self.af,
            protocol: self.protocol@,
            query_type: self.query_type@,
            query_class: self.query_class@,
            query_argument: self.query_argument@,
            use_dnssec: self.use_dnssec,
            recursion_desired: self.recursion_desired,
            system_resolver: self.system_resolver,
            spread: self.spread,
            schedule: self.schedule,
        }
    }
}

impl View for HttpSpec {
    type V = HttpView;

    open spec fn view(&self) -> HttpView {
        HttpView {
            msm_id: self.msm_id,
            url: self.url@,
            method: self.method@,
            af: self.af,
            headers: self.headers.deep_view(),
            body: opt_text(self.body),
            max_body_size: self.max_body_size,
            spread: self.spread,
            schedule: self.schedule,
        }
    }
}

impl View for TlsSpec {
    type V = TlsView;

    open spec fn view(&self) -> TlsView {
        TlsView {
            msm_id: self.msm_id,
            target: self.target@,
            port: self.port,
            af: self.af,
            hostname: opt_text(self.hostname),
            spread: self.spread,
            schedule: self.schedule,
        }
    }
}

impl View for NtpSpec {
    type V = NtpView;

    open spec fn view(&self) -> NtpView {
        NtpView {
            msm_id: self.msm_id,
            target: self.target@,
            af: self.af,
            packets: self.packets,
            spread: self.spread,
            schedule: self.schedule,
        }
    }
}

impl View for TelnetCommand {
    type V = CommandView;

    open spec fn view(&self) -> CommandView {
        match self {
            TelnetCommand::Ping(p) => CommandView::Ping(p@),
            TelnetCommand::Traceroute(p) => CommandView::Traceroute(p@),
            TelnetCommand::Dns(p) => CommandView::Dns(p@),
            TelnetCommand::Http(p) => CommandView::Http(p@),
            TelnetCommand::Tls(p) => CommandView::Tls(p@),
            TelnetCommand::Ntp(p) => CommandView::Ntp(p@),
            TelnetCommand::Status => CommandView::Status,
            TelnetCommand::Stop(id) => CommandView::Stop(*id),
            TelnetCommand::Ignored(s) => CommandView::Ignored(s@),
            TelnetCommand::Unknown(s) => CommandView::Unknown(s@),
        }
    }
}

// ---------------------------------------------------------------------
// Telnet byte stream
// ---------------------------------------------------------------------

/// Interpret As Command
pub const IAC: u8 = 255;
pub const WILL: u8 = 251;
pub const WONT: u8 = 252;
pub const DO: u8 = 253;
pub const DONT: u8 = 254;
/// Subnegotiation Begin
pub const SB: u8 = 250;
/// Subnegotiation End
pub const SE: u8 = 240;
pub const TELOPT_ECHO: u8 = 1;
/// Suppress Go Ahead
pub const TELOPT_SGA: u8 = 3;
/// Negotiate About Window Size
pub const TELOPT_NAWS: u8 = 31;

/// Where a subnegotiation that started before `j` ends: just after the
/// first `IAC SE` from `j` on, or at the last byte when there is none.
pub open spec fn skip_subnegotiation(d: Seq<u8>, j: int) -> int
    decreases d.len() - j,
{
    if j + 1 < d.len() {
        if d[j] == IAC && d[j + 1] == SE {
            j + 2
        } else {
            skip_subnegotiation(d, j + 1)
        }
    } else {
        j
    }
}

/// The data bytes of `d` from `i` on, telnet command sequences removed:
/// `IAC IAC` stands for one 255 byte, `IAC WILL|WONT|DO|DONT opt` is three
/// bytes, `IAC SB ... IAC SE` is skipped whole, other `IAC x` are two bytes.
pub open spec fn telnet_data_from(d: Seq<u8>, i: int) -> Seq<u8>
    decreases d.len() - i,
{
    if i < 0 || i >= d.len() {
        seq![]
    } else if d[i] == IAC && i + 1 < d.len() {
        let c = d[i + 1];
        if c == IAC {
            seq![IAC] + telnet_data_from(d, i + 2)
        } else if c == WILL || c == WONT || c == DO || c == DONT {
            if i + 2 < d.len() {
                telnet_data_from(d, i + 3)
            } else {
                telnet_data_from(d, i + 2)
            }
        } else if c == SB {
            let e = skip_subnegotiation(d, i + 2);
            if i < e <= d.len() {
                telnet_data_from(d, e)
            } else {
                seq![]
            }
        } else {
            telnet_data_from(d, i + 2)
        }
    } else {
        seq![d[i]] + telnet_data_from(d, i + 1)
    }
}

proof fn lemma_skip_subnegotiation(d: Seq<u8>, j: int)
    ensures
        skip_subnegotiation(d, j) >= j,
        j <= d.len() ==> skip_subnegotiation(d, j) <= d.len(),
    decreases d.len() - j,
{
    if j + 1 < d.len() && !(d[j] == IAC && d[j + 1] == SE) {
        lemma_skip_subnegotiation(d, j + 1);
    }
}

/// The data bytes of a telnet stream chunk, command sequences removed.
pub fn filter_telnet_bytes(data: &[u8]) -> (r: Vec<u8>)
    ensures
        r@ == telnet_data_from(data@, 0),
{
    let mut result: Vec<u8> = Vec::new();
    let mut i: usize = 0;
    let n = data.len();
    while i < n
        invariant
            n == data@.len(),
            i <= n,
            result@ + telnet_data_from(data@, i as int) == telnet_data_from(data@, 0),
        decreases n - i,
    {
        let ghost before = result@;
        if data[i] == IAC && i + 1 < n {
            let c = data[i + 1];
            if c == IAC {
                result.push(IAC);
                assert(result@ + telnet_data_from(data@, i + 2) =~= before + telnet_data_from(
                    data@,
                    i as int,
                ));
                i = i + 2;
            } else if c == WILL || c == WONT || c == DO || c == DONT {
                if i + 2 < n {
                    i = i + 3;
                } else {
                    i = i + 2;
                }
            } else if c == SB {
                let mut j = i + 2;
                let mut done = false;
                proof {
                    lemma_skip_subnegotiation(data@, j as int);
                }
                while !done && j < n - 1
                    invariant
                        n == data@.len(),
                        i < n,
                        i + 2 <= j <= n,
                        done ==> j as int == skip_subnegotiation(data@, (i + 2) as int),
                        !done ==> skip_subnegotiation(data@, (i + 2) as int)
                            == skip_subnegotiation(data@, j as int),
                    decreases n - j,
                {
                    if data[j] == IAC && data[j + 1] == SE {
                        j = j + 2;
                        done = true;
                    } else {
                        j = j + 1;
                    }
                }
                i = j;
            } else {
                i = i + 2;
            }
        } else {
            result.push(data[i]);
            assert(result@ + telnet_data_from(data@, i + 1) =~= before + telnet_data_from(
                data@,
                i as int,
            ));
            i = i + 1;
        }
    }
    assert(result@ + telnet_data_from(data@, i as int) =~= result@);
    result
}

} // verus!

verus! {

// ---------------------------------------------------------------------
// CRONLINE tokens and option values
// ---------------------------------------------------------------------

/// Tokens read so far, the token being read, and whether a quote is open.
pub open spec fn cron_state(s: Seq<char>) -> (Seq<Seq<char>>, Seq<char>, bool)
    decreases s.len(),
{
    if s.len() == 0 {
        (seq![], seq![], false)
    } else {
        let (t, cur, q) = cron_state(s.drop_last());
        let c = s.last();
        if c == '"' {
            (t, cur, !q)
        } else if (c == ' ' || c == '\t') && !q {
            if cur.len() > 0 {
                (t.push(cur), seq![], q)
            } else {
                (t, cur, q)
            }
        } else {
            (t, cur.push(c), q)
        }
    }
}

/// The tokens of a CRONLINE: split at spaces and tabs outside double
/// quotes; the quotes themselves are dropped.
pub open spec fn spec_tokenize_cronline(s: Seq<char>) -> Seq<Seq<char>> {
    let (t, cur, q) = cron_state(s);
    if cur.len() > 0 {
        t.push(cur)
    } else {
        t
    }
}

/// Splits a CRONLINE command into tokens, keeping quoted strings whole.
pub fn tokenize_cronline(cmd: &str) -> (r: Vec<String>)
    ensures
        r.deep_view() == spec_tokenize_cronline(cmd@),
{
    let v = chars_of(cmd);
    let mut tokens: Vec<String> = Vec::new();
    let mut current = String::new();
    let mut in_quotes = false;
    let mut i: usize = 0;
    while i < v.len()
        invariant
            v@ == cmd@,
            i <= v@.len(),
            (tokens.deep_view(), current@, in_quotes) == cron_state(cmd@.take(i as int)),
        decreases v.len() - i,
    {
        let c = v[i];
        assert(cmd@.take(i as int + 1).drop_last() =~= cmd@.take(i as int));
        if c == '"' {
            in_quotes = !in_quotes;
        } else if (c == ' ' || c == '\t') && !in_quotes {
            if current.unicode_len() > 0 {
                let ghost before = tokens.deep_view();
                tokens.push(current);
                current = String::new();
                assert(tokens.deep_view() =~= before.push(tokens@[tokens@.len() - 1]@));
            }
        } else {
            push_char(&mut current, c);
        }
        i = i + 1;
    }
    assert(cmd@.take(v@.len() as int) =~= cmd@);
    if current.unicode_len() > 0 {
        let ghost before = tokens.deep_view();
        tokens.push(current);
        assert(tokens.deep_view() =~= before.push(tokens@[tokens@.len() - 1]@));
    }
    tokens
}

/// Whether an argument is an option (starts with `-`).
pub open spec fn is_flag(a: Seq<char>) -> bool {
    a.len() > 0 && a[0] == '-'
}

/// The unsigned number `s` spells when it is one no larger than `max`,
/// else `dflt` (`s.parse().unwrap_or(dflt)`).
pub open spec fn uint_or(s: Seq<char>, max: int, dflt: nat) -> nat {
    match spec_parse_unsigned(s, max) {
        Some(v) => v,
        None => dflt,
    }
}

/// `s.parse::<i64>().unwrap_or(dflt)`.
pub open spec fn int_or(s: Seq<char>, dflt: int) -> int {
    match spec_parse_i64(s) {
        Some(v) => v,
        None => dflt,
    }
}

/// `s.parse::<u32>().ok()`.
pub open spec fn u32_opt(s: Seq<char>) -> Option<u32> {
    match spec_parse_unsigned(s, u32::MAX as int) {
        Some(v) => Some(v as u32),
        None => None,
    }
}

fn u64_or(s: &String, d: u64) -> (r: u64)
    ensures
        r == uint_or(s@, u64::MAX as int, d as nat),
{
    match parse_u64(s.as_str()) {
        Some(v) => v,
        None => d,
    }
}

fn u32_or(s: &String, d: u32) -> (r: u32)
    ensures
        r == uint_or(s@, u32::MAX as int, d as nat),
{
    match parse_u32(s.as_str()) {
        Some(v) => v,
        None => d,
    }
}

fn u16_or(s: &String, d: u16) -> (r: u16)
    ensures
        r == uint_or(s@, u16::MAX as int, d as nat),
{
    match parse_u16(s.as_str()) {
        Some(v) => v,
        None => d,
    }
}

fn u8_or(s: &String, d: u8) -> (r: u8)
    ensures
        r == uint_or(s@, u8::MAX as int, d as nat),
{
    match parse_u8(s.as_str()) {
        Some(v) => v,
        None => d,
    }
}

fn is_flag_exec(s: &String) -> (r: bool)
    ensures
        r == is_flag(s@),
{
    starts_with_char(s.as_str(), '-')
}

/// The schedule of a CRONLINE measurement: it repeats every `interval`
/// seconds from now until `end_time`.
pub open spec fn cron_schedule(interval: u64, end_time: i64) -> ScheduleSpec {
    ScheduleSpec { interval: interval, start_time: 0, stop_time: end_time }
}

/// The complaint for a measurement command without a target.
pub open spec fn missing_target(cmd: Seq<char>, a: Seq<Seq<char>>) -> CommandView {
    CommandView::Unknown(cmd + " "@ + spec_debug_list(a))
}

fn missing_target_exec(cmd: &str, args: &Vec<String>) -> (r: TelnetCommand)
    ensures
        r@ == missing_target(cmd@, args.deep_view()),
{
    let head = concat(cmd, " ");
    let list = debug_list(args);
    let msg = concat(head.as_str(), list.as_str());
    TelnetCommand::Unknown(msg)
}

// ---------------------------------------------------------------------
// evping
// ---------------------------------------------------------------------

/// What the evping options read so far set.
pub struct PingOpts {
    pub af: u8,
    pub count: u32,
    pub size: u16,
    pub msm_id: u64,
    pub target: Seq<char>,
}

/// Reads evping options from `a[i]` on:
/// `[-4|-6] [-c count] [-s size] [-A msm_id] [-O output] [-I interval] [-R] target`.
pub open spec fn evping_scan(a: Seq<Seq<char>>, i: int, o: PingOpts) -> PingOpts
    decreases a.len() - i,
{
    if i < 0 || i >= a.len() {
        o
    } else {
        let x = a[i];
        let more = i + 1 < a.len();
        if x == "-4"@ {
            evping_scan(a, i + 1, PingOpts { af: 4, ..o })
        } else if x == "-6"@ {
            evping_scan(a, i + 1, PingOpts { af: 6, ..o })
        } else if x == "-c"@ {
            if more {
                evping_scan(
                    a,
                    i + 2,
                    PingOpts { count: uint_or(a[i + 1], u32::MAX as int, 3) as u32, ..o },
                )
            } else {
                evping_scan(a, i + 1, o)
            }
        } else if x == "-s"@ {
            if more {
                evping_scan(
                    a,
                    i + 2,
                    PingOpts { size: uint_or(a[i + 1], u16::MAX as int, 64) as u16, ..o },
                )
            } else {
                evping_scan(a, i + 1, o)
            }
        } else if x == "-A"@ {
            if more {
                evping_scan(
                    a,
                    i + 2,
                    PingOpts { msm_id: uint_or(a[i + 1], u64::MAX as int, 0) as u64, ..o },
                )
            } else {
                evping_scan(a, i + 1, o)
            }
        } else if x == "-O"@ || x == "-I"@ {
            if more {
                evping_scan(a, i + 2, o)
            } else {
                evping_scan(a, i + 1, o)
            }
        } else if x == "-R"@ {
            evping_scan(a, i + 1, o)
        } else if !is_flag(x) {
            evping_scan(a, i + 1, PingOpts { target: x, ..o })
        } else {
            evping_scan(a, i + 1, o)
        }
    }
}

/// The ping that an evping command line asks for.
pub open spec fn spec_evping(a: Seq<Seq<char>>, interval: u64, end_time: i64, spread: u32) -> CommandView {
    let o = evping_scan(a, 0, PingOpts { af: 4, count: 3, size: 64, msm_id: 0, target: seq![] });
    if o.target.len() == 0 {
        missing_target("evping"@, a)
    } else {
        CommandView::Ping(
            PingView {
                msm_id: o.msm_id,
                target: o.target,
                af: o.af,
                packets: o.count,
                size: o.size,
                packet_interval: 1000,
                spread: Some(spread),
                schedule: cron_schedule(interval, end_time),
            },
        )
    }
}

/// Parses evping arguments.
pub fn parse_evping(args: &Vec<String>, interval: u64, end_time: i64, spread: u32) -> (r: TelnetCommand)
    ensures
        r@ == spec_evping(args.deep_view(), interval, end_time, spread),
{
    let ghost a = args.deep_view();
    let mut af: u8 = 4;
    let mut count: u32 = 3;
    let mut size: u16 = 64;
    let mut msm_id: u64 = 0;
    let mut target = String::new();
    let mut i: usize = 0;
    while i < args.len()
        invariant
            a == args.deep_view(),
            i <= args@.len(),
            evping_scan(a, 0, PingOpts { af: 4, count: 3, size: 64, msm_id: 0, target: seq![] })
                == evping_scan(
                a,
                i as int,
                PingOpts { af: af, count: count, size: size, msm_id: msm_id, target: target@ },
            ),
        decreases args.len() - i,
    {
        let arg = &args[i];
        let more = i + 1 < args.len();
        assert(arg@ == a[i as int]);
        if more {
            assert(args[i + 1]@ == a[i + 1]);
        }
        if str_eq(arg.as_str(), "-4") {
            af = 4;
        } else if str_eq(arg.as_str(), "-6") {
            af = 6;
        } else if str_eq(arg.as_str(), "-c") {
            if more {
                count = u32_or(&args[i + 1], 3);
                i = i + 1;
            }
        } else if str_eq(arg.as_str(), "-s") {
            if more {
                size = u16_or(&args[i + 1], 64);
                i = i + 1;
            }
        } else if str_eq(arg.as_str(), "-A") {
            if more {
                msm_id = u64_or(&args[i + 1], 0);
                i = i + 1;
            }
        } else if str_eq(arg.as_str(), "-O") || str_eq(arg.as_str(), "-I") {
            if more {
                i = i + 1;
            }
        } else if str_eq(arg.as_str(), "-R") {
        } else if !is_flag_exec(arg) {
            target = arg.clone();
        }
        i = i + 1;
    }
    if target.as_str().is_empty() {
        return missing_target_exec("evping", args);
    }
    TelnetCommand::Ping(
        PingSpec {
            msm_id,
            target,
            af,
            packets: count,
            size,
            packet_interval: 1000,
            spread: Some(spread),
            schedule: ScheduleSpec { interval, start_time: 0, stop_time: end_time },
        },
    )
}

} // verus!

verus! {

// ---------------------------------------------------------------------
// evtraceroute
// ---------------------------------------------------------------------

/// What the evtraceroute options read so far set.
pub struct TraceOpts {
    pub af: u8,
    pub protocol: Seq<char>,
    pub first_hop: u8,
    pub max_hops: u8,
    pub paris: Option<u32>,
    pub msm_id: u64,
    pub target: Seq<char>,
    pub size: u16,
}

/// Reads evtraceroute options from `a[i]` on: `[-4|-6] [-I|-U|-T]
/// [-a n] [-c n] [-w n] [-f first_hop] [-m max_hops] [-p paris]
/// [-s|-S size] [-A msm_id] [-O output] target`.
pub open spec fn evtraceroute_scan(a: Seq<Seq<char>>, i: int, o: TraceOpts) -> TraceOpts
    decreases a.len() - i,
{
    if i < 0 || i >= a.len() {
        o
    } else {
        let x = a[i];
        let more = i + 1 < a.len();
        if x == "-4"@ {
            evtraceroute_scan(a, i + 1, TraceOpts { af: 4, ..o })
        } else if x == "-6"@ {
            evtraceroute_scan(a, i + 1, TraceOpts { af: 6, ..o })
        } else if x == "-I"@ {
            evtraceroute_scan(a, i + 1, TraceOpts { protocol: "ICMP"@, ..o })
        } else if x == "-U"@ {
            evtraceroute_scan(a, i + 1, TraceOpts { protocol: "UDP"@, ..o })
        } else if x == "-T"@ {
            evtraceroute_scan(a, i + 1, TraceOpts { protocol: "TCP"@, ..o })
        } else if x == "-a"@ || x == "-c"@ || x == "-w"@ {
            if more {
                evtraceroute_scan(a, i + 2, o)
            } else {
                evtraceroute_scan(a, i + 1, o)
            }
        } else if x == "-f"@ {
            if more {
                evtraceroute_scan(
                    a,
                    i + 2,
                    TraceOpts { first_hop: uint_or(a[i + 1], u8::MAX as int, 1) as u8, ..o },
                )
            } else {
                evtraceroute_scan(a, i + 1, o)
            }
        } else if x == "-m"@ {
            if more {
                evtraceroute_scan(
                    a,
                    i + 2,
                    TraceOpts { max_hops: uint_or(a[i + 1], u8::MAX as int, 32) as u8, ..o },
                )
            } else {
                evtraceroute_scan(a, i + 1, o)
            }
        } else if x == "-p"@ {
            if more {
                evtraceroute_scan(
                    a,
                    i + 2,
                    TraceOpts { paris: Some(uint_or(a[i + 1], u32::MAX as int, 0) as u32), ..o },
                )
            } else {
                evtraceroute_scan(a, i + 1, o)
            }
        } else if x == "-s"@ || x == "-S"@ {
            if more {
                evtraceroute_scan(
                    a,
                    i + 2,
                    TraceOpts { size: uint_or(a[i + 1], u16::MAX as int, 40) as u16, ..o },
                )
            } else {
                evtraceroute_scan(a, i + 1, o)
            }
        } else if x == "-A"@ {
            if more {
                evtraceroute_scan(
                    a,
                    i + 2,
                    TraceOpts { msm_id: uint_or(a[i + 1], u64::MAX as int, 0) as u64, ..o },
                )
            } else {
                evtraceroute_scan(a, i + 1, o)
            }
        } else if x == "-O"@ {
            if more {
                evtraceroute_scan(a, i + 2, o)
            } else {
                evtraceroute_scan(a, i + 1, o)
            }
        } else if !is_flag(x) {
            evtraceroute_scan(a, i + 1, TraceOpts { target: x, ..o })
        } else {
            evtraceroute_scan(a, i + 1, o)
        }
    }
}

pub open spec fn trace_defaults() -> TraceOpts {
    TraceOpts {
        af: 4,
        protocol: "ICMP"@,
        first_hop: 1,
        max_hops: 32,
        paris: None,
        msm_id: 0,
        target: seq![],
        size: 40,
    }
}

/// The traceroute that an evtraceroute command line asks for.
pub open spec fn spec_evtraceroute(
    a: Seq<Seq<char>>,
    interval: u64,
    end_time: i64,
    spread: u32,
) -> CommandView {
    let o = evtraceroute_scan(a, 0, trace_defaults());
    if o.target.len() == 0 {
        missing_target("evtraceroute"@, a)
    } else {
        CommandView::Traceroute(
            TracerouteView {
                msm_id: o.msm_id,
                target: o.target,
                af: o.af,
                protocol: o.protocol,
                paris: o.paris,
                first_hop: o.first_hop,
                max_hops: o.max_hops,
                size: o.size,
                spread: Some(spread),
                schedule: cron_schedule(interval, end_time),
            },
        )
    }
}

/// Whether a word is one of the protocol flags of evtraceroute.
pub open spec fn is_trace_protocol_flag(x: Seq<char>) -> bool {
    x == "-I"@ || x == "-U"@ || x == "-T"@
}

/// The options `o` with the protocol set to `p`.
pub open spec fn with_protocol(o: TraceOpts, p: Seq<char>) -> TraceOpts {
    TraceOpts { protocol: p, ..o }
}

/// Reading words none of which is a protocol flag commutes with setting
/// the protocol beforehand.
#[verifier::rlimit(50)]
proof fn lemma_trace_scan_with_protocol(a: Seq<Seq<char>>, i: int, o: TraceOpts, p: Seq<char>)
    requires
        i >= 0,
        forall|k: int| 0 <= k < a.len() ==> !is_trace_protocol_flag(#[trigger] a[k]),
    ensures
        evtraceroute_scan(a, i, with_protocol(o, p)) == with_protocol(evtraceroute_scan(a, i, o), p),
    decreases a.len() - i,
{
    if i < a.len() {
        let x = a[i];
        let more = i + 1 < a.len();
        assert(!is_trace_protocol_flag(a[i]));
        if x == "-4"@ {
            lemma_trace_scan_with_protocol(a, i + 1, TraceOpts { af: 4, ..o }, p);
            assert(TraceOpts { af: 4, ..with_protocol(o, p) } == with_protocol(
                TraceOpts { af: 4, ..o },
                p,
            ));
        } else if x == "-6"@ {
            lemma_trace_scan_with_protocol(a, i + 1, TraceOpts { af: 6, ..o }, p);
            assert(TraceOpts { af: 6, ..with_protocol(o, p) } == with_protocol(
                TraceOpts { af: 6, ..o },
                p,
            ));
        } else if x == "-a"@ || x == "-c"@ || x == "-w"@ {
            if more {
                lemma_trace_scan_with_protocol(a, i + 2, o, p);
            } else {
                lemma_trace_scan_with_protocol(a, i + 1, o, p);
            }
        } else if x == "-f"@ {
            if more {
                let o1 = TraceOpts { first_hop: uint_or(a[i + 1], u8::MAX as int, 1) as u8, ..o };
                lemma_trace_scan_with_protocol(a, i + 2, o1, p);
                assert(TraceOpts {
                    first_hop: uint_or(a[i + 1], u8::MAX as int, 1) as u8,
                    ..with_protocol(o, p)
                } == with_protocol(o1, p));
            } else {
                lemma_trace_scan_with_protocol(a, i + 1, o, p);
            }
        } else if x == "-m"@ {
            if more {
                let o1 = TraceOpts { max_hops: uint_or(a[i + 1], u8::MAX as int, 32) as u8, ..o };
                lemma_trace_scan_with_protocol(a, i + 2, o1, p);
                assert(TraceOpts {
                    max_hops: uint_or(a[i + 1], u8::MAX as int, 32) as u8,
                    ..with_protocol(o, p)
                } == with_protocol(o1, p));
            } else {
                lemma_trace_scan_with_protocol(a, i + 1, o, p);
            }
        } else if x == "-p"@ {
            if more {
                let o1 = TraceOpts {
                    paris: Some(uint_or(a[i + 1], u32::MAX as int, 0) as u32),
                    ..o
                };
                lemma_trace_scan_with_protocol(a, i + 2, o1, p);
                assert(TraceOpts {
                    paris: Some(uint_or(a[i + 1], u32::MAX as int, 0) as u32),
                    ..with_protocol(o, p)
                } == with_protocol(o1, p));
            } else {
                lemma_trace_scan_with_protocol(a, i + 1, o, p);
            }
        } else if x == "-s"@ || x == "-S"@ {
            if more {
                let o1 = TraceOpts { size: uint_or(a[i + 1], u16::MAX as int, 40) as u16, ..o };
                lemma_trace_scan_with_protocol(a, i + 2, o1, p);
                assert(TraceOpts {
                    size: uint_or(a[i + 1], u16::MAX as int, 40) as u16,
                    ..with_protocol(o, p)
                } == with_protocol(o1, p));
            } else {
                lemma_trace_scan_with_protocol(a, i + 1, o, p);
            }
        } else if x == "-A"@ {
            if more {
                let o1 = TraceOpts { msm_id: uint_or(a[i + 1], u64::MAX as int, 0) as u64, ..o };
                lemma_trace_scan_with_protocol(a, i + 2, o1, p);
                assert(TraceOpts {
                    msm_id: uint_or(a[i + 1], u64::MAX as int, 0) as u64,
                    ..with_protocol(o, p)
                } == with_protocol(o1, p));
            } else {
                lemma_trace_scan_with_protocol(a, i + 1, o, p);
            }
        } else if x == "-O"@ {
            if more {
                lemma_trace_scan_with_protocol(a, i + 2, o, p);
            } else {
                lemma_trace_scan_with_protocol(a, i + 1, o, p);
            }
        } else if !is_flag(x) {
            lemma_trace_scan_with_protocol(a, i + 1, TraceOpts { target: x, ..o }, p);
            assert(TraceOpts { target: x, ..with_protocol(o, p) } == with_protocol(
                TraceOpts { target: x, ..o },
                p,
            ));
        } else {
            lemma_trace_scan_with_protocol(a, i + 1, o, p);
        }
    }
}

/// Whether a word is one of the address-family flags of evtraceroute.
pub open spec fn is_trace_af_flag(x: Seq<char>) -> bool {
    x == "-4"@ || x == "-6"@
}

/// The options `o` with the address family set to `v`.
pub open spec fn with_af(o: TraceOpts, v: u8) -> TraceOpts {
    TraceOpts { af: v, ..o }
}

/// Reading words none of which is an address-family flag commutes with
/// setting the address family beforehand.
#[verifier::rlimit(50)]
proof fn lemma_trace_scan_with_af(a: Seq<Seq<char>>, i: int, o: TraceOpts, v: u8)
    requires
        i >= 0,
        forall|k: int| 0 <= k < a.len() ==> !is_trace_af_flag(#[trigger] a[k]),
    ensures
        evtraceroute_scan(a, i, with_af(o, v)) == with_af(evtraceroute_scan(a, i, o), v),
    decreases a.len() - i,
{
    if i < a.len() {
        let x = a[i];
        let more = i + 1 < a.len();
        assert(!is_trace_af_flag(a[i]));
        if x == "-I"@ {
            lemma_trace_scan_with_af(a, i + 1, TraceOpts { protocol: "ICMP"@, ..o }, v);
            assert(TraceOpts { protocol: "ICMP"@, ..with_af(o, v) } == with_af(
                TraceOpts { protocol: "ICMP"@, ..o },
                v,
            ));
        } else if x == "-U"@ {
            lemma_trace_scan_with_af(a, i + 1, TraceOpts { protocol: "UDP"@, ..o }, v);
            assert(TraceOpts { protocol: "UDP"@, ..with_af(o, v) } == with_af(
                TraceOpts { protocol: "UDP"@, ..o },
                v,
            ));
        } else if x == "-T"@ {
            lemma_trace_scan_with_af(a, i + 1, TraceOpts { protocol: "TCP"@, ..o }, v);
            assert(TraceOpts { protocol: "TCP"@, ..with_af(o, v) } == with_af(
                TraceOpts { protocol: "TCP"@, ..o },
                v,
            ));
        } else if x == "-a"@ || x == "-c"@ || x == "-w"@ {
            if more {
                lemma_trace_scan_with_af(a, i + 2, o, v);
            } else {
                lemma_trace_scan_with_af(a, i + 1, o, v);
            }
        } else if x == "-f"@ {
            if more {
                let o1 = TraceOpts { first_hop: uint_or(a[i + 1], u8::MAX as int, 1) as u8, ..o };
                lemma_trace_scan_with_af(a, i + 2, o1, v);
                assert(TraceOpts {
                    first_hop: uint_or(a[i + 1], u8::MAX as int, 1) as u8,
                    ..with_af(o, v)
                } == with_af(o1, v));
            } else {
                lemma_trace_scan_with_af(a, i + 1, o, v);
            }
        } else if x == "-m"@ {
            if more {
                let o1 = TraceOpts { max_hops: uint_or(a[i + 1], u8::MAX as int, 32) as u8, ..o };
                lemma_trace_scan_with_af(a, i + 2, o1, v);
                assert(TraceOpts {
                    max_hops: uint_or(a[i + 1], u8::MAX as int, 32) as u8,
                    ..with_af(o, v)
                } == with_af(o1, v));
            } else {
                lemma_trace_scan_with_af(a, i + 1, o, v);
            }
        } else if x == "-p"@ {
            if more {
                let o1 = TraceOpts {
                    paris: Some(uint_or(a[i + 1], u32::MAX as int, 0) as u32),
                    ..o
                };
                lemma_trace_scan_with_af(a, i + 2, o1, v);
                assert(TraceOpts {
                    paris: Some(uint_or(a[i + 1], u32::MAX as int, 0) as u32),
                    ..with_af(o, v)
                } == with_af(o1, v));
            } else {
                lemma_trace_scan_with_af(a, i + 1, o, v);
            }
        } else if x == "-s"@ || x == "-S"@ {
            if more {
                let o1 = TraceOpts { size: uint_or(a[i + 1], u16::MAX as int, 40) as u16, ..o };
                lemma_trace_scan_with_af(a, i + 2, o1, v);
                assert(TraceOpts {
                    size: uint_or(a[i + 1], u16::MAX as int, 40) as u16,
                    ..with_af(o, v)
                } == with_af(o1, v));
            } else {
                lemma_trace_scan_with_af(a, i + 1, o, v);
            }
        } else if x == "-A"@ {
            if more {
                let o1 = TraceOpts { msm_id: uint_or(a[i + 1], u64::MAX as int, 0) as u64, ..o };
                lemma_trace_scan_with_af(a, i + 2, o1, v);
                assert(TraceOpts {
                    msm_id: uint_or(a[i + 1], u64::MAX as int, 0) as u64,
                    ..with_af(o, v)
                } == with_af(o1, v));
            } else {
                lemma_trace_scan_with_af(a, i + 1, o, v);
            }
        } else if x == "-O"@ {
            if more {
                lemma_trace_scan_with_af(a, i + 2, o, v);
            } else {
                lemma_trace_scan_with_af(a, i + 1, o, v);
            }
        } else if !is_flag(x) {
            lemma_trace_scan_with_af(a, i + 1, TraceOpts { target: x, ..o }, v);
            assert(TraceOpts { target: x, ..with_af(o, v) } == with_af(
                TraceOpts { target: x, ..o },
                v,
            ));
        } else {
            lemma_trace_scan_with_af(a, i + 1, o, v);
        }
    }
}

/// Reading words leaves the protocol as it was when none of them is a
/// protocol flag.
#[verifier::rlimit(50)]
proof fn lemma_trace_scan_keeps_protocol(a: Seq<Seq<char>>, i: int, o: TraceOpts)
    requires
        i >= 0,
        forall|k: int| 0 <= k < a.len() ==> !is_trace_protocol_flag(#[trigger] a[k]),
    ensures
        evtraceroute_scan(a, i, o).protocol == o.protocol,
    decreases a.len() - i,
{
    if i < a.len() {
        let x = a[i];
        let more = i + 1 < a.len();
        assert(!is_trace_protocol_flag(a[i]));
        if x == "-4"@ {
            lemma_trace_scan_keeps_protocol(a, i + 1, TraceOpts { af: 4, ..o });
        } else if x == "-6"@ {
            lemma_trace_scan_keeps_protocol(a, i + 1, TraceOpts { af: 6, ..o });
        } else if x == "-a"@ || x == "-c"@ || x == "-w"@ {
            if more {
                lemma_trace_scan_keeps_protocol(a, i + 2, o);
            } else {
                lemma_trace_scan_keeps_protocol(a, i + 1, o);
            }
        } else if x == "-f"@ {
            if more {
                lemma_trace_scan_keeps_protocol(
                    a,
                    i + 2,
                    TraceOpts { first_hop: uint_or(a[i + 1], u8::MAX as int, 1) as u8, ..o },
                );
            } else {
                lemma_trace_scan_keeps_protocol(a, i + 1, o);
            }
        } else if x == "-m"@ {
            if more {
                lemma_trace_scan_keeps_protocol(
                    a,
                    i + 2,
                    TraceOpts { max_hops: uint_or(a[i + 1], u8::MAX as int, 32) as u8, ..o },
                );
            } else {
                lemma_trace_scan_keeps_protocol(a, i + 1, o);
            }
        } else if x == "-p"@ {
            if more {
                lemma_trace_scan_keeps_protocol(
                    a,
                    i + 2,
                    TraceOpts { paris: Some(uint_or(a[i + 1], u32::MAX as int, 0) as u32), ..o },
                );
            } else {
                lemma_trace_scan_keeps_protocol(a, i + 1, o);
            }
        } else if x == "-s"@ || x == "-S"@ {
            if more {
                lemma_trace_scan_keeps_protocol(
                    a,
                    i + 2,
                    TraceOpts { size: uint_or(a[i + 1], u16::MAX as int, 40) as u16, ..o },
                );
            } else {
                lemma_trace_scan_keeps_protocol(a, i + 1, o);
            }
        } else if x == "-A"@ {
            if more {
                lemma_trace_scan_keeps_protocol(
                    a,
                    i + 2,
                    TraceOpts { msm_id: uint_or(a[i + 1], u64::MAX as int, 0) as u64, ..o },
                );
            } else {
                lemma_trace_scan_keeps_protocol(a, i + 1, o);
            }
        } else if x == "-O"@ {
            if more {
                lemma_trace_scan_keeps_protocol(a, i + 2, o);
            } else {
                lemma_trace_scan_keeps_protocol(a, i + 1, o);
            }
        } else if !is_flag(x) {
            lemma_trace_scan_keeps_protocol(a, i + 1, TraceOpts { target: x, ..o });
        } else {
            lemma_trace_scan_keeps_protocol(a, i + 1, o);
        }
    }
}

/// Words put in front of the arguments are read first; once past them,
/// the rest reads as the arguments alone did.
#[verifier::rlimit(50)]
proof fn lemma_trace_scan_shift(pre: Seq<Seq<char>>, a: Seq<Seq<char>>, i: int, o: TraceOpts)
    requires
        i >= 0,
    ensures
        evtraceroute_scan(pre + a, pre.len() + i, o) == evtraceroute_scan(a, i, o),
    decreases a.len() - i,
{
    let b = pre + a;
    let n = pre.len() as int;
    assert(b.len() == a.len() + n);
    if i < a.len() {
        let x = a[i];
        let more = i + 1 < a.len();
        assert(b[n + i] == a[i]);
        if more {
            assert(b[n + i + 1] == a[i + 1]);
        }
        if x == "-4"@ {
            lemma_trace_scan_shift(pre, a, i + 1, TraceOpts { af: 4, ..o });
        } else if x == "-6"@ {
            lemma_trace_scan_shift(pre, a, i + 1, TraceOpts { af: 6, ..o });
        } else if x == "-I"@ {
            lemma_trace_scan_shift(pre, a, i + 1, TraceOpts { protocol: "ICMP"@, ..o });
        } else if x == "-U"@ {
            lemma_trace_scan_shift(pre, a, i + 1, TraceOpts { protocol: "UDP"@, ..o });
        } else if x == "-T"@ {
            lemma_trace_scan_shift(pre, a, i + 1, TraceOpts { protocol: "TCP"@, ..o });
        } else if x == "-a"@ || x == "-c"@ || x == "-w"@ {
            if more {
                lemma_trace_scan_shift(pre, a, i + 2, o);
            } else {
                lemma_trace_scan_shift(pre, a, i + 1, o);
            }
        } else if x == "-f"@ {
            if more {
                lemma_trace_scan_shift(
                    pre,
                    a,
                    i + 2,
                    TraceOpts { first_hop: uint_or(a[i + 1], u8::MAX as int, 1) as u8, ..o },
                );
            } else {
                lemma_trace_scan_shift(pre, a, i + 1, o);
            }
        } else if x == "-m"@ {
            if more {
                lemma_trace_scan_shift(
                    pre,
                    a,
                    i + 2,
                    TraceOpts { max_hops: uint_or(a[i + 1], u8::MAX as int, 32) as u8, ..o },
                );
            } else {
                lemma_trace_scan_shift(pre, a, i + 1, o);
            }
        } else if x == "-p"@ {
            if more {
                lemma_trace_scan_shift(
                    pre,
                    a,
                    i + 2,
                    TraceOpts { paris: Some(uint_or(a[i + 1], u32::MAX as int, 0) as u32), ..o },
                );
            } else {
                lemma_trace_scan_shift(pre, a, i + 1, o);
            }
        } else if x == "-s"@ || x == "-S"@ {
            if more {
                lemma_trace_scan_shift(
                    pre,
                    a,
                    i + 2,
                    TraceOpts { size: uint_or(a[i + 1], u16::MAX as int, 40) as u16, ..o },
                );
            } else {
                lemma_trace_scan_shift(pre, a, i + 1, o);
            }
        } else if x == "-A"@ {
            if more {
                lemma_trace_scan_shift(
                    pre,
                    a,
                    i + 2,
                    TraceOpts { msm_id: uint_or(a[i + 1], u64::MAX as int, 0) as u64, ..o },
                );
            } else {
                lemma_trace_scan_shift(pre, a, i + 1, o);
            }
        } else if x == "-O"@ {
            if more {
                lemma_trace_scan_shift(pre, a, i + 2, o);
            } else {
                lemma_trace_scan_shift(pre, a, i + 1, o);
            }
        } else if !is_flag(x) {
            lemma_trace_scan_shift(pre, a, i + 1, TraceOpts { target: x, ..o });
        } else {
            lemma_trace_scan_shift(pre, a, i + 1, o);
        }
    }
}

/// The protocol flags differ from each other and from the address-family
/// flags.
proof fn lemma_trace_flag_words_differ()
    ensures
        "-4"@ != "-6"@,
        "-4"@ != "-I"@,
        "-4"@ != "-U"@,
        "-4"@ != "-T"@,
        "-6"@ != "-I"@,
        "-6"@ != "-U"@,
        "-6"@ != "-T"@,
        "-I"@ != "-U"@,
        "-I"@ != "-T"@,
        "-U"@ != "-T"@,
        "TCP"@ != "ICMP"@,
        "UDP"@ != "ICMP"@,
        "TCP"@ != "UDP"@,
{
    reveal_strlit("-4");
    reveal_strlit("-6");
    reveal_strlit("-I");
    reveal_strlit("-U");
    reveal_strlit("-T");
    reveal_strlit("TCP");
    reveal_strlit("UDP");
    reveal_strlit("ICMP");
    assert("-4"@[1] == '4');
    assert("-6"@[1] == '6');
    assert("-I"@[1] == 'I');
    assert("-U"@[1] == 'U');
    assert("-T"@[1] == 'T');
    assert("TCP"@[0] == 'T');
    assert("UDP"@[0] == 'U');
    assert("ICMP"@[0] == 'I');
}

/// The name of the protocol that an evtraceroute protocol flag asks for.
pub open spec fn trace_flag_protocol(f: Seq<char>) -> Seq<char> {
    if f == "-T"@ {
        "TCP"@
    } else if f == "-U"@ {
        "UDP"@
    } else {
        "ICMP"@
    }
}

/// The protocol flags of evtraceroute: with none among the words, the
/// traceroute is ICMP; `-I`, `-U` or `-T` put before such words asks for
/// ICMP, UDP or TCP, and changes nothing else.
pub proof fn lemma_evtraceroute_protocol_flags(
    a: Seq<Seq<char>>,
    f: Seq<char>,
    interval: u64,
    end_time: i64,
    spread: u32,
)
    requires
        forall|k: int| 0 <= k < a.len() ==> !is_trace_protocol_flag(#[trigger] a[k]),
        is_trace_protocol_flag(f),
    ensures
        spec_evtraceroute(a, interval, end_time, spread) matches CommandView::Traceroute(v)
            ==> v.protocol == "ICMP"@,
        (spec_evtraceroute(seq![f] + a, interval, end_time, spread) is Traceroute)
            <==> (spec_evtraceroute(a, interval, end_time, spread) is Traceroute),
        spec_evtraceroute(a, interval, end_time, spread) matches CommandView::Traceroute(v)
            ==> spec_evtraceroute(seq![f] + a, interval, end_time, spread) == CommandView::Traceroute(
            TracerouteView { protocol: trace_flag_protocol(f), ..v },
        ),
        f == "-T"@ ==> trace_flag_protocol(f) == "TCP"@,
        f == "-U"@ ==> trace_flag_protocol(f) == "UDP"@,
        f == "-I"@ ==> trace_flag_protocol(f) == "ICMP"@,
{
    lemma_trace_flag_words_differ();
    let d = trace_defaults();
    let pf = trace_flag_protocol(f);
    lemma_trace_scan_keeps_protocol(a, 0, d);
    lemma_trace_scan_shift(seq![f], a, 0, with_protocol(d, pf));
    lemma_trace_scan_with_protocol(a, 0, d, pf);
    let b = seq![f] + a;
    assert(b[0] == f);
    assert(evtraceroute_scan(b, 0, d) == evtraceroute_scan(b, 1, with_protocol(d, pf)));
}

/// Whether a word of evtraceroute takes the next word as its value.
pub open spec fn is_trace_value_option(x: Seq<char>) -> bool {
    x == "-a"@ || x == "-c"@ || x == "-w"@ || x == "-f"@ || x == "-m"@ || x == "-p"@ || x == "-s"@
        || x == "-S"@ || x == "-A"@ || x == "-O"@
}

/// Words none of which takes a value are read one by one: reading them
/// and what follows is reading them alone, then going on from their end.
#[verifier::rlimit(50)]
proof fn lemma_trace_scan_split(pre: Seq<Seq<char>>, rest: Seq<Seq<char>>, i: int, o: TraceOpts)
    requires
        0 <= i <= pre.len(),
        forall|k: int| 0 <= k < pre.len() ==> !is_trace_value_option(#[trigger] pre[k]),
    ensures
        evtraceroute_scan(pre + rest, i, o) == evtraceroute_scan(
            pre + rest,
            pre.len() as int,
            evtraceroute_scan(pre, i, o),
        ),
    decreases pre.len() - i,
{
    let b = pre + rest;
    if i < pre.len() {
        let x = pre[i];
        assert(b[i] == x);
        assert(!is_trace_value_option(pre[i]));
        if x == "-4"@ {
            lemma_trace_scan_split(pre, rest, i + 1, TraceOpts { af: 4, ..o });
        } else if x == "-6"@ {
            lemma_trace_scan_split(pre, rest, i + 1, TraceOpts { af: 6, ..o });
        } else if x == "-I"@ {
            lemma_trace_scan_split(pre, rest, i + 1, TraceOpts { protocol: "ICMP"@, ..o });
        } else if x == "-U"@ {
            lemma_trace_scan_split(pre, rest, i + 1, TraceOpts { protocol: "UDP"@, ..o });
        } else if x == "-T"@ {
            lemma_trace_scan_split(pre, rest, i + 1, TraceOpts { protocol: "TCP"@, ..o });
        } else if !is_flag(x) {
            lemma_trace_scan_split(pre, rest, i + 1, TraceOpts { target: x, ..o });
        } else {
            lemma_trace_scan_split(pre, rest, i + 1, o);
        }
    }
}

/// The last protocol flag decides the protocol: when `-I`, `-U` or `-T`
/// follows words none of which takes a value, and no protocol flag comes
/// after it, the traceroute runs over ICMP, UDP or TCP.
pub proof fn lemma_evtraceroute_last_protocol_flag(
    pre: Seq<Seq<char>>,
    f: Seq<char>,
    a: Seq<Seq<char>>,
    interval: u64,
    end_time: i64,
    spread: u32,
)
    requires
        forall|k: int| 0 <= k < pre.len() ==> !is_trace_value_option(#[trigger] pre[k]),
        is_trace_protocol_flag(f),
        forall|k: int| 0 <= k < a.len() ==> !is_trace_protocol_flag(#[trigger] a[k]),
    ensures
        spec_evtraceroute(pre + seq![f] + a, interval, end_time, spread) matches CommandView::Traceroute(
            v,
        ) ==> v.protocol == trace_flag_protocol(f),
        f == "-T"@ ==> (spec_evtraceroute(pre + seq![f] + a, interval, end_time, spread) matches CommandView::Traceroute(
            v,
        ) ==> v.protocol == "TCP"@),
        f == "-U"@ ==> (spec_evtraceroute(pre + seq![f] + a, interval, end_time, spread) matches CommandView::Traceroute(
            v,
        ) ==> v.protocol == "UDP"@),
        f == "-I"@ ==> (spec_evtraceroute(pre + seq![f] + a, interval, end_time, spread) matches CommandView::Traceroute(
            v,
        ) ==> v.protocol == "ICMP"@),
{
    lemma_trace_flag_words_differ();
    let d = trace_defaults();
    let pf = trace_flag_protocol(f);
    let rest = seq![f] + a;
    let b = pre + seq![f] + a;
    assert(b == pre + rest);
    let o1 = evtraceroute_scan(pre, 0, d);
    lemma_trace_scan_split(pre, rest, 0, d);
    lemma_trace_scan_shift(pre, rest, 0, o1);
    assert(rest[0] == f);
    assert(evtraceroute_scan(rest, 0, o1) == evtraceroute_scan(rest, 1, with_protocol(o1, pf)));
    lemma_trace_scan_shift(seq![f], a, 0, with_protocol(o1, pf));
    lemma_trace_scan_keeps_protocol(a, 0, with_protocol(o1, pf));
}

/// The last address-family flag decides the address family: when `-4` or
/// `-6` follows words none of which takes a value, and no address-family
/// flag comes after it, the traceroute runs over IPv4 or IPv6.
pub proof fn lemma_evtraceroute_last_af_flag(
    pre: Seq<Seq<char>>,
    f: Seq<char>,
    a: Seq<Seq<char>>,
    interval: u64,
    end_time: i64,
    spread: u32,
)
    requires
        forall|k: int| 0 <= k < pre.len() ==> !is_trace_value_option(#[trigger] pre[k]),
        is_trace_af_flag(f),
        forall|k: int| 0 <= k < a.len() ==> !is_trace_af_flag(#[trigger] a[k]),
    ensures
        f == "-4"@ ==> (spec_evtraceroute(pre + seq![f] + a, interval, end_time, spread) matches CommandView::Traceroute(
            v,
        ) ==> v.af == 4),
        f == "-6"@ ==> (spec_evtraceroute(pre + seq![f] + a, interval, end_time, spread) matches CommandView::Traceroute(
            v,
        ) ==> v.af == 6),
{
    lemma_trace_flag_words_differ();
    let d = trace_defaults();
    let n: u8 = if f == "-6"@ {
        6
    } else {
        4
    };
    let rest = seq![f] + a;
    let b = pre + seq![f] + a;
    assert(b == pre + rest);
    let o1 = evtraceroute_scan(pre, 0, d);
    lemma_trace_scan_split(pre, rest, 0, d);
    lemma_trace_scan_shift(pre, rest, 0, o1);
    assert(rest[0] == f);
    assert(evtraceroute_scan(rest, 0, o1) == evtraceroute_scan(rest, 1, with_af(o1, n)));
    lemma_trace_scan_shift(seq![f], a, 0, with_af(o1, n));
    lemma_trace_scan_with_af(a, 0, o1, n);
}

/// Parses evtraceroute arguments.
pub fn parse_evtraceroute(args: &Vec<String>, interval: u64, end_time: i64, spread: u32) -> (r:
    TelnetCommand)
    ensures
        r@ == spec_evtraceroute(args.deep_view(), interval, end_time, spread),
{
    let ghost a = args.deep_view();
    let mut af: u8 = 4;
    let mut protocol = String::from_str("ICMP");
    let mut first_hop: u8 = 1;
    let mut max_hops: u8 = 32;
    let mut paris: Option<u32> = None;
    let mut msm_id: u64 = 0;
    let mut target = String::new();
    let mut size: u16 = 40;
    let mut i: usize = 0;
    while i < args.len()
        invariant
            a == args.deep_view(),
            i <= args@.len(),
            evtraceroute_scan(a, 0, trace_defaults()) == evtraceroute_scan(
                a,
                i as int,
                TraceOpts {
                    af: af,
                    protocol: protocol@,
                    first_hop: first_hop,
                    max_hops: max_hops,
                    paris: paris,
                    msm_id: msm_id,
                    target: target@,
                    size: size,
                },
            ),
        decreases args.len() - i,
    {
        let arg = &args[i];
        let more = i + 1 < args.len();
        assert(arg@ == a[i as int]);
        if more {
            assert(args[i + 1]@ == a[i + 1]);
        }
        if str_eq(arg.as_str(), "-4") {
            af = 4;
        } else if str_eq(arg.as_str(), "-6") {
            af = 6;
        } else if str_eq(arg.as_str(), "-I") {
            protocol = String::from_str("ICMP");
        } else if str_eq(arg.as_str(), "-U") {
            protocol = String::from_str("UDP");
        } else if str_eq(arg.as_str(), "-T") {
            protocol = String::from_str("TCP");
        } else if str_eq(arg.as_str(), "-a") || str_eq(arg.as_str(), "-c") || str_eq(
            arg.as_str(),
            "-w",
        ) {
            if more {
                i = i + 1;
            }
        } else if str_eq(arg.as_str(), "-f") {
            if more {
                first_hop = u8_or(&args[i + 1], 1);
                i = i + 1;
            }
        } else if str_eq(arg.as_str(), "-m") {
            if more {
                max_hops = u8_or(&args[i + 1], 32);
                i = i + 1;
            }
        } else if str_eq(arg.as_str(), "-p") {
            if more {
                paris = Some(u32_or(&args[i + 1], 0));
                i = i + 1;
            }
        } else if str_eq(arg.as_str(), "-s") || str_eq(arg.as_str(), "-S") {
            if more {
                size = u16_or(&args[i + 1], 40);
                i = i + 1;
            }
        } else if str_eq(arg.as_str(), "-A") {
            if more {
                msm_id = u64_or(&args[i + 1], 0);
                i = i + 1;
            }
        } else if str_eq(arg.as_str(), "-O") {
            if more {
                i = i + 1;
            }
        } else if !is_flag_exec(arg) {
            target = arg.clone();
        }
        i = i + 1;
    }
    if target.as_str().is_empty() {
        return missing_target_exec("evtraceroute", args);
    }
    TelnetCommand::Traceroute(
        TracerouteSpec {
            msm_id,
            target,
            af,
            protocol,
            paris,
            first_hop,
            max_hops,
            size,
            spread: Some(spread),
            schedule: ScheduleSpec { interval, start_time: 0, stop_time: end_time },
        },
    )
}

// ---------------------------------------------------------------------
// evhttpget
// ---------------------------------------------------------------------

/// What the evhttpget options read so far set.
pub struct HttpOpts {
    pub af: u8,
    pub msm_id: u64,
    pub url: Seq<char>,
    pub max_body_size: Option<u32>,
}

/// Reads evhttpget options from `a[i]` on: `[-4|-6] [-1] [-A msm_id]
/// [-O output] [-M|--max-body size] [--store-headers size] url`.
pub open spec fn evhttpget_scan(a: Seq<Seq<char>>, i: int, o: HttpOpts) -> HttpOpts
    decreases a.len() - i,
{
    if i < 0 || i >= a.len() {
        o
    } else {
        let x = a[i];
        let more = i + 1 < a.len();
        if x == "-4"@ {
            evhttpget_scan(a, i + 1, HttpOpts { af: 4, ..o })
        } else if x == "-6"@ {
            evhttpget_scan(a, i + 1, HttpOpts { af: 6, ..o })
        } else if x == "-1"@ {
            evhttpget_scan(a, i + 1, o)
        } else if x == "-A"@ {
            if more {
                evhttpget_scan(
                    a,
                    i + 2,
                    HttpOpts { msm_id: uint_or(a[i + 1], u64::MAX as int, 0) as u64, ..o },
                )
            } else {
                evhttpget_scan(a, i + 1, o)
            }
        } else if x == "-O"@ {
            if more {
                evhttpget_scan(a, i + 2, o)
            } else {
                evhttpget_scan(a, i + 1, o)
            }
        } else if x == "-M"@ || x == "--max-body"@ {
            if more {
                evhttpget_scan(a, i + 2, HttpOpts { max_body_size: u32_opt(a[i + 1]), ..o })
            } else {
                evhttpget_scan(a, i + 1, o)
            }
        } else if x == "--store-headers"@ {
            if more {
                evhttpget_scan(a, i + 2, o)
            } else {
                evhttpget_scan(a, i + 1, o)
            }
        } else if !is_flag(x) {
            evhttpget_scan(a, i + 1, HttpOpts { url: x, ..o })
        } else {
            evhttpget_scan(a, i + 1, o)
        }
    }
}

/// The HTTP GET that an evhttpget command line asks for.
pub open spec fn spec_evhttpget(
    a: Seq<Seq<char>>,
    interval: u64,
    end_time: i64,
    spread: u32,
) -> CommandView {
    let o = evhttpget_scan(a, 0, HttpOpts { af: 4, msm_id: 0, url: seq![], max_body_size: None });
    if o.url.len() == 0 {
        missing_target("evhttpget"@, a)
    } else {
        CommandView::Http(
            HttpView {
                msm_id: o.msm_id,
                url: o.url,
                method: "GET"@,
                af: o.af,
                headers: seq![],
                body: None,
                max_body_size: o.max_body_size,
                spread: Some(spread),
                schedule: cron_schedule(interval, end_time),
            },
        )
    }
}

/// Parses evhttpget arguments.
pub fn parse_evhttpget(args: &Vec<String>, interval: u64, end_time: i64, spread: u32) -> (r:
    TelnetCommand)
    ensures
        r@ == spec_evhttpget(args.deep_view(), interval, end_time, spread),
{
    let ghost a = args.deep_view();
    let mut af: u8 = 4;
    let mut msm_id: u64 = 0;
    let mut url = String::new();
    let mut max_body_size: Option<u32> = None;
    let mut i: usize = 0;
    while i < args.len()
        invariant
            a == args.deep_view(),
            i <= args@.len(),
            evhttpget_scan(a, 0, HttpOpts { af: 4, msm_id: 0, url: seq![], max_body_size: None })
                == evhttpget_scan(
                a,
                i as int,
                HttpOpts { af: af, msm_id: msm_id, url: url@, max_body_size: max_body_size },
            ),
        decreases args.len() - i,
    {
        let arg = &args[i];
        let more = i + 1 < args.len();
        assert(arg@ == a[i as int]);
        if more {
            assert(args[i + 1]@ == a[i + 1]);
        }
        if str_eq(arg.as_str(), "-4") {
            af = 4;
        } else if str_eq(arg.as_str(), "-6") {
            af = 6;
        } else if str_eq(arg.as_str(), "-1") {
        } else if str_eq(arg.as_str(), "-A") {
            if more {
                msm_id = u64_or(&args[i + 1], 0);
                i = i + 1;
            }
        } else if str_eq(arg.as_str(), "-O") {
            if more {
                i = i + 1;
            }
        } else if str_eq(arg.as_str(), "-M") || str_eq(arg.as_str(), "--max-body") {
            if more {
                max_body_size = parse_u32(args[i + 1].as_str());
                i = i + 1;
            }
        } else if str_eq(arg.as_str(), "--store-headers") {
            if more {
                i = i + 1;
            }
        } else if !is_flag_exec(arg) {
            url = arg.clone();
        }
        i = i + 1;
    }
    if url.as_str().is_empty() {
        return missing_target_exec("evhttpget", args);
    }
    let headers: Vec<String> = Vec::new();
    assert(headers.deep_view() =~= Seq::<Seq<char>>::empty());
    TelnetCommand::Http(
        HttpSpec {
            msm_id,
            url,
            method: String::from_str("GET"),
            af,
            headers,
            body: None,
            max_body_size,
            spread: Some(spread),
            schedule: ScheduleSpec { interval, start_time: 0, stop_time: end_time },
        },
    )
}

// ---------------------------------------------------------------------
// evsslgetcert
// ---------------------------------------------------------------------

/// What the evsslgetcert options read so far set.
pub struct TlsOpts {
    pub af: u8,
    pub port: u16,
    pub msm_id: u64,
    pub target: Seq<char>,
    pub hostname: Option<Seq<char>>,
}

/// Reads evsslgetcert options from `a[i]` on: `[-4|-6] [-p port]
/// [-A msm_id] [-O output] [-h|-H|--hostname name] target`.
pub open spec fn evsslgetcert_scan(a: Seq<Seq<char>>, i: int, o: TlsOpts) -> TlsOpts
    decreases a.len() - i,
{
    if i < 0 || i >= a.len() {
        o
    } else {
        let x = a[i];
        let more = i + 1 < a.len();
        if x == "-4"@ {
            evsslgetcert_scan(a, i + 1, TlsOpts { af: 4, ..o })
        } else if x == "-6"@ {
            evsslgetcert_scan(a, i + 1, TlsOpts { af: 6, ..o })
        } else if x == "-p"@ {
            if more {
                evsslgetcert_scan(
                    a,
                    i + 2,
                    TlsOpts { port: uint_or(a[i + 1], u16::MAX as int, 443) as u16, ..o },
                )
            } else {
                evsslgetcert_scan(a, i + 1, o)
            }
        } else if x == "-A"@ {
            if more {
                evsslgetcert_scan(
                    a,
                    i + 2,
                    TlsOpts { msm_id: uint_or(a[i + 1], u64::MAX as int, 0) as u64, ..o },
                )
            } else {
                evsslgetcert_scan(a, i + 1, o)
            }
        } else if x == "-O"@ {
            if more {
                evsslgetcert_scan(a, i + 2, o)
            } else {
                evsslgetcert_scan(a, i + 1, o)
            }
        } else if x == "-h"@ || x == "-H"@ || x == "--hostname"@ {
            if more {
                evsslgetcert_scan(a, i + 2, TlsOpts { hostname: Some(a[i + 1]), ..o })
            } else {
                evsslgetcert_scan(a, i + 1, o)
            }
        } else if !is_flag(x) {
            evsslgetcert_scan(a, i + 1, TlsOpts { target: x, ..o })
        } else {
            evsslgetcert_scan(a, i + 1, o)
        }
    }
}

/// The certificate check that an evsslgetcert command line asks for; the
/// server name defaults to the target.
pub open spec fn spec_evsslgetcert(
    a: Seq<Seq<char>>,
    interval: u64,
    end_time: i64,
    spread: u32,
) -> CommandView {
    let o = evsslgetcert_scan(
        a,
        0,
        TlsOpts { af: 4, port: 443, msm_id: 0, target: seq![], hostname: None },
    );
    if o.target.len() == 0 {
        missing_target("evsslgetcert"@, a)
    } else {
        CommandView::Tls(
            TlsView {
                msm_id: o.msm_id,
                target: o.target,
                port: o.port,
                af: o.af,
                hostname: match o.hostname {
                    Some(h) => Some(h),
                    None => Some(o.target),
                },
                spread: Some(spread),
                schedule: cron_schedule(interval, end_time),
            },
        )
    }
}

/// Parses evsslgetcert arguments.
pub fn parse_evsslgetcert(args: &Vec<String>, interval: u64, end_time: i64, spread: u32) -> (r:
    TelnetCommand)
    ensures
        r@ == spec_evsslgetcert(args.deep_view(), interval, end_time, spread),
{
    let ghost a = args.deep_view();
    let mut af: u8 = 4;
    let mut port: u16 = 443;
    let mut msm_id: u64 = 0;
    let mut target = String::new();
    let mut hostname: Option<String> = None;
    let mut i: usize = 0;
    while i < args.len()
        invariant
            a == args.deep_view(),
            i <= args@.len(),
            evsslgetcert_scan(
                a,
                0,
                TlsOpts { af: 4, port: 443, msm_id: 0, target: seq![], hostname: None },
            ) == evsslgetcert_scan(
                a,
                i as int,
                TlsOpts {
                    af: af,
                    port: port,
                    msm_id: msm_id,
                    target: target@,
                    hostname: opt_text(hostname),
                },
            ),
        decreases args.len() - i,
    {
        let arg = &args[i];
        let more = i + 1 < args.len();
        assert(arg@ == a[i as int]);
        if more {
            assert(args[i + 1]@ == a[i + 1]);
        }
        if str_eq(arg.as_str(), "-4") {
            af = 4;
        } else if str_eq(arg.as_str(), "-6") {
            af = 6;
        } else if str_eq(arg.as_str(), "-p") {
            if more {
                port = u16_or(&args[i + 1], 443);
                i = i + 1;
            }
        } else if str_eq(arg.as_str(), "-A") {
            if more {
                msm_id = u64_or(&args[i + 1], 0);
                i = i + 1;
            }
        } else if str_eq(arg.as_str(), "-O") {
            if more {
                i = i + 1;
            }
        } else if str_eq(arg.as_str(), "-h") || str_eq(arg.as_str(), "-H") || str_eq(
            arg.as_str(),
            "--hostname",
        ) {
            if more {
                hostname = Some(args[i + 1].clone());
                i = i + 1;
            }
        } else if !is_flag_exec(arg) {
            target = arg.clone();
        }
        i = i + 1;
    }
    if target.as_str().is_empty() {
        return missing_target_exec("evsslgetcert", args);
    }
    let hostname = match hostname {
        Some(h) => Some(h),
        None => Some(target.clone()),
    };
    TelnetCommand::Tls(
        TlsSpec {
            msm_id,
            target,
            port,
            af,
            hostname,
            spread: Some(spread),
            schedule: ScheduleSpec { interval, start_time: 0, stop_time: end_time },
        },
    )
}

// ---------------------------------------------------------------------
// evntp
// ---------------------------------------------------------------------

/// What the evntp options read so far set.
pub struct NtpOpts {
    pub af: u8,
    pub packets: u32,
    pub msm_id: u64,
    pub target: Seq<char>,
}

/// Reads evntp options from `a[i]` on: `[-4|-6] [-c count] [-A msm_id]
/// [-O output] target`.
pub open spec fn evntp_scan(a: Seq<Seq<char>>, i: int, o: NtpOpts) -> NtpOpts
    decreases a.len() - i,
{
    if i < 0 || i >= a.len() {
        o
    } else {
        let x = a[i];
        let more = i + 1 < a.len();
        if x == "-4"@ {
            evntp_scan(a, i + 1, NtpOpts { af: 4, ..o })
        } else if x == "-6"@ {
            evntp_scan(a, i + 1, NtpOpts { af: 6, ..o })
        } else if x == "-c"@ {
            if more {
                evntp_scan(
                    a,
                    i + 2,
                    NtpOpts { packets: uint_or(a[i + 1], u32::MAX as int, 3) as u32, ..o },
                )
            } else {
                evntp_scan(a, i + 1, o)
            }
        } else if x == "-A"@ {
            if more {
                evntp_scan(
                    a,
                    i + 2,
                    NtpOpts { msm_id: uint_or(a[i + 1], u64::MAX as int, 0) as u64, ..o },
                )
            } else {
                evntp_scan(a, i + 1, o)
            }
        } else if x == "-O"@ {
            if more {
                evntp_scan(a, i + 2, o)
            } else {
                evntp_scan(a, i + 1, o)
            }
        } else if !is_flag(x) {
            evntp_scan(a, i + 1, NtpOpts { target: x, ..o })
        } else {
            evntp_scan(a, i + 1, o)
        }
    }
}

/// The NTP query that an evntp command line asks for.
pub open spec fn spec_evntp(a: Seq<Seq<char>>, interval: u64, end_time: i64, spread: u32) -> CommandView {
    let o = evntp_scan(a, 0, NtpOpts { af: 4, packets: 3, msm_id: 0, target: seq![] });
    if o.target.len() == 0 {
        missing_target("evntp"@, a)
    } else {
        CommandView::Ntp(
            NtpView {
                msm_id: o.msm_id,
                target: o.target,
                af: o.af,
                packets: o.packets,
                spread: Some(spread),
                schedule: cron_schedule(interval, end_time),
            },
        )
    }
}

/// Parses evntp arguments.
pub fn parse_evntp(args: &Vec<String>, interval: u64, end_time: i64, spread: u32) -> (r: TelnetCommand)
    ensures
        r@ == spec_evntp(args.deep_view(), interval, end_time, spread),
{
    let ghost a = args.deep_view();
    let mut af: u8 = 4;
    let mut packets: u32 = 3;
    let mut msm_id: u64 = 0;
    let mut target = String::new();
    let mut i: usize = 0;
    while i < args.len()
        invariant
            a == args.deep_view(),
            i <= args@.len(),
            evntp_scan(a, 0, NtpOpts { af: 4, packets: 3, msm_id: 0, target: seq![] })
                == evntp_scan(
                a,
                i as int,
                NtpOpts { af: af, packets: packets, msm_id: msm_id, target: target@ },
            ),
        decreases args.len() - i,
    {
        let arg = &args[i];
        let more = i + 1 < args.len();
        assert(arg@ == a[i as int]);
        if more {
            assert(args[i + 1]@ == a[i + 1]);
        }
        if str_eq(arg.as_str(), "-4") {
            af = 4;
        } else if str_eq(arg.as_str(), "-6") {
            af = 6;
        } else if str_eq(arg.as_str(), "-c") {
            if more {
                packets = u32_or(&args[i + 1], 3);
                i = i + 1;
            }
        } else if str_eq(arg.as_str(), "-A") {
            if more {
                msm_id = u64_or(&args[i + 1], 0);
                i = i + 1;
            }
        } else if str_eq(arg.as_str(), "-O") {
            if more {
                i = i + 1;
            }
        } else if !is_flag_exec(arg) {
            target = arg.clone();
        }
        i = i + 1;
    }
    if target.as_str().is_empty() {
        return missing_target_exec("evntp", args);
    }
    TelnetCommand::Ntp(
        NtpSpec {
            msm_id,
            target,
            af,
            packets,
            spread: Some(spread),
            schedule: ScheduleSpec { interval, start_time: 0, stop_time: end_time },
        },
    )
}

} // verus!

verus! {

// ---------------------------------------------------------------------
// evtdig
// ---------------------------------------------------------------------

/// The DNS record type with the given number, for the types evtdig is
/// asked for by number; `A` otherwise.
pub open spec fn dns_type_name(n: nat) -> Seq<char> {
    if n == 1 {
        "A"@
    } else if n == 2 {
        "NS"@
    } else if n == 5 {
        "CNAME"@
    } else if n == 6 {
        "SOA"@
    } else if n == 12 {
        "PTR"@
    } else if n == 15 {
        "MX"@
    } else if n == 16 {
        "TXT"@
    } else if n == 28 {
        "AAAA"@
    } else if n == 33 {
        "SRV"@
    } else if n == 43 {
        "DS"@
    } else if n == 46 {
        "RRSIG"@
    } else if n == 47 {
        "NSEC"@
    } else if n == 48 {
        "DNSKEY"@
    } else {
        "A"@
    }
}

/// The DNS class with the given number: `CH` for 3, `IN` otherwise.
pub open spec fn dns_class_name(n: nat) -> Seq<char> {
    if n == 3 {
        "CH"@
    } else {
        "IN"@
    }
}

fn dns_type_name_exec(n: u16) -> (r: String)
    ensures
        r@ == dns_type_name(n as nat),
{
    let s = if n == 1 {
        "A"
    } else if n == 2 {
        "NS"
    } else if n == 5 {
        "CNAME"
    } else if n == 6 {
        "SOA"
    } else if n == 12 {
        "PTR"
    } else if n == 15 {
        "MX"
    } else if n == 16 {
        "TXT"
    } else if n == 28 {
        "AAAA"
    } else if n == 33 {
        "SRV"
    } else if n == 43 {
        "DS"
    } else if n == 46 {
        "RRSIG"
    } else if n == 47 {
        "NSEC"
    } else if n == 48 {
        "DNSKEY"
    } else {
        "A"
    };
    String::from_str(s)
}

fn dns_class_name_exec(n: u16) -> (r: String)
    ensures
        r@ == dns_class_name(n as nat),
{
    if n == 3 {
        String::from_str("CH")
    } else {
        String::from_str("IN")
    }
}

/// What the evtdig options read so far set.
pub struct DigOpts {
    pub af: u8,
    pub protocol: Seq<char>,
    pub query_type: Seq<char>,
    pub query_class: Seq<char>,
    pub use_dnssec: bool,
    pub recursion_desired: bool,
    pub msm_id: u64,
    pub target: Seq<char>,
    pub query_argument: Seq<char>,
    pub use_resolver: bool,
}

pub open spec fn dig_defaults() -> DigOpts {
    DigOpts {
        af: 4,
        protocol: "UDP"@,
        query_type: "A"@,
        query_class: "IN"@,
        use_dnssec: false,
        recursion_desired: true,
        msm_id: 0,
        target: seq![],
        query_argument: seq![],
        use_resolver: false,
    }
}

/// Reads evtdig options from `a[i]` on. Besides dig-style `+opt` flags and
/// `@server`, it knows `-4|-6`, `-p port`, `--soa`, `--resolv`, `-h`
/// (hostname.bind), `-b` (version.bind), `-i` (id.server), `-r|-d|-D`
/// (DNSSEC), `-t|-T` (TCP), `--type N`, `--class N`, `--query NAME`,
/// `--a NAME`, `--aaaa NAME`, `-e size`, `-R` (no recursion), `--retry n`,
/// `--qbuf`, `-A msm_id` and `-O output`; a bare argument is the server
/// when it is the first IP address seen, else the query name if none yet.
pub open spec fn evtdig_scan(a: Seq<Seq<char>>, i: int, o: DigOpts) -> DigOpts
    decreases a.len() - i,
{
    if i < 0 || i >= a.len() {
        o
    } else {
        let x = a[i];
        let more = i + 1 < a.len();
        if x == "-4"@ {
            evtdig_scan(a, i + 1, DigOpts { af: 4, ..o })
        } else if x == "-6"@ {
            evtdig_scan(a, i + 1, DigOpts { af: 6, ..o })
        } else if x == "-p"@ {
            if more {
                evtdig_scan(a, i + 2, o)
            } else {
                evtdig_scan(a, i + 1, o)
            }
        } else if x == "--soa"@ {
            evtdig_scan(
                a,
                i + 1,
                DigOpts {
                    query_type: "SOA"@,
                    query_argument: if o.query_argument.len() == 0 {
                        "."@
                    } else {
                        o.query_argument
                    },
                    ..o
                },
            )
        } else if x == "--resolv"@ {
            evtdig_scan(a, i + 1, DigOpts { use_resolver: true, ..o })
        } else if x == "-h"@ {
            evtdig_scan(
                a,
                i + 1,
                DigOpts {
                    query_type: "TXT"@,
                    query_class: "CH"@,
                    query_argument: "hostname.bind"@,
                    ..o
                },
            )
        } else if x == "-b"@ {
            evtdig_scan(
                a,
                i + 1,
                DigOpts {
                    query_type: "TXT"@,
                    query_class: "CH"@,
                    query_argument: "version.bind"@,
                    ..o
                },
            )
        } else if x == "-i"@ {
            evtdig_scan(
                a,
                i + 1,
                DigOpts {
                    query_type: "TXT"@,
                    query_class: "CH"@,
                    query_argument: "id.server"@,
                    ..o
                },
            )
        } else if x == "-r"@ {
            evtdig_scan(a, i + 1, DigOpts { use_dnssec: true, ..o })
        } else if x == "-d"@ || x == "-D"@ || x == "+dnssec"@ {
            evtdig_scan(a, i + 1, DigOpts { use_dnssec: true, ..o })
        } else if x == "-t"@ {
            evtdig_scan(a, i + 1, DigOpts { protocol: "TCP"@, ..o })
        } else if x == "--type"@ || x == "-type"@ {
            if more {
                evtdig_scan(
                    a,
                    i + 2,
                    DigOpts {
                        query_type: dns_type_name(uint_or(a[i + 1], u16::MAX as int, 1)),
                        ..o
                    },
                )
            } else {
                evtdig_scan(a, i + 1, o)
            }
        } else if x == "--class"@ || x == "-class"@ {
            if more {
                evtdig_scan(
                    a,
                    i + 2,
                    DigOpts {
                        query_class: dns_class_name(uint_or(a[i + 1], u16::MAX as int, 1)),
                        ..o
                    },
                )
            } else {
                evtdig_scan(a, i + 1, o)
            }
        } else if x == "--query"@ || x == "-query"@ {
            if more {
                evtdig_scan(a, i + 2, DigOpts { query_argument: a[i + 1], ..o })
            } else {
                evtdig_scan(a, i + 1, o)
            }
        } else if x == "--a"@ || x == "-a"@ {
            if more && !is_flag(a[i + 1]) {
                evtdig_scan(a, i + 2, DigOpts { query_type: "A"@, query_argument: a[i + 1], ..o })
            } else {
                evtdig_scan(a, i + 1, DigOpts { query_type: "A"@, ..o })
            }
        } else if x == "--aaaa"@ || x == "-aaaa"@ {
            if more && !is_flag(a[i + 1]) {
                evtdig_scan(
                    a,
                    i + 2,
                    DigOpts { query_type: "AAAA"@, query_argument: a[i + 1], ..o },
                )
            } else {
                evtdig_scan(a, i + 1, DigOpts { query_type: "AAAA"@, ..o })
            }
        } else if x == "-e"@ {
            if more {
                evtdig_scan(a, i + 2, o)
            } else {
                evtdig_scan(a, i + 1, o)
            }
        } else if x == "-R"@ {
            evtdig_scan(a, i + 1, DigOpts { recursion_desired: false, ..o })
        } else if x == "--retry"@ {
            if more {
                evtdig_scan(a, i + 2, o)
            } else {
                evtdig_scan(a, i + 1, o)
            }
        } else if x == "--qbuf"@ {
            evtdig_scan(a, i + 1, o)
        } else if x == "-T"@ {
            evtdig_scan(a, i + 1, DigOpts { protocol: "TCP"@, ..o })
        } else if x == "-A"@ {
            if more {
                evtdig_scan(
                    a,
                    i + 2,
                    DigOpts { msm_id: uint_or(a[i + 1], u64::MAX as int, 0) as u64, ..o },
                )
            } else {
                evtdig_scan(a, i + 1, o)
            }
        } else if x == "-O"@ {
            if more {
                evtdig_scan(a, i + 2, o)
            } else {
                evtdig_scan(a, i + 1, o)
            }
        } else if x.len() > 0 && x[0] == '@' {
            evtdig_scan(a, i + 1, DigOpts { target: x.drop_first(), ..o })
        } else if x.len() > 0 && x[0] == '+' {
            if x == "+dnssec"@ || x == "+do"@ {
                evtdig_scan(a, i + 1, DigOpts { use_dnssec: true, ..o })
            } else if x == "+tcp"@ {
                evtdig_scan(a, i + 1, DigOpts { protocol: "TCP"@, ..o })
            } else if x == "+nord"@ || x == "+norecurse"@ {
                evtdig_scan(a, i + 1, DigOpts { recursion_desired: false, ..o })
            } else {
                evtdig_scan(a, i + 1, o)
            }
        } else if is_prefix("--"@, x) {
            evtdig_scan(a, i + 1, o)
        } else if !is_flag(x) {
            if o.target.len() == 0 && spec_is_ip_addr(x) {
                evtdig_scan(a, i + 1, DigOpts { target: x, ..o })
            } else if o.query_argument.len() == 0 {
                evtdig_scan(a, i + 1, DigOpts { query_argument: x, ..o })
            } else {
                evtdig_scan(a, i + 1, o)
            }
        } else {
            evtdig_scan(a, i + 1, o)
        }
    }
}

/// Whether the command asks the system's resolver: `--resolv` and no
/// server named.
pub open spec fn asks_system_resolver(o: DigOpts) -> bool {
    o.use_resolver && o.target.len() == 0
}

/// The query name once defaulted to the root and stripped of a trailing
/// dot.
pub open spec fn dig_query_name(q: Seq<char>) -> Seq<char> {
    let q1 = if q.len() == 0 {
        "."@
    } else {
        q
    };
    if q1.len() > 1 && q1.last() == '.' {
        q1.drop_last()
    } else {
        q1
    }
}

/// The DNS query that an evtdig command line asks for. With `--resolv` and
/// no server, the resolver that the system names is asked (the target is
/// left empty). Otherwise, without a server, an IP address given as the
/// query name becomes the server and the root is queried.
pub open spec fn spec_evtdig(a: Seq<Seq<char>>, interval: u64, end_time: i64, spread: u32) -> CommandView {
    let o = evtdig_scan(a, 0, dig_defaults());
    let sys = asks_system_resolver(o);
    let swap = !sys && o.target.len() == 0 && o.query_argument.len() > 0 && spec_is_ip_addr(
        o.query_argument,
    );
    let t2 = if swap {
        o.query_argument
    } else {
        o.target
    };
    let q2 = if swap {
        "."@
    } else {
        o.query_argument
    };
    if !sys && t2.len() == 0 {
        missing_target("evtdig"@, a)
    } else {
        CommandView::Dns(
            DnsView {
                msm_id: o.msm_id,
                target: t2,
                af: o.af,
                protocol: o.protocol,
                query_type: o.query_type,
                query_class: o.query_class,
                query_argument: dig_query_name(q2),
                use_dnssec: o.use_dnssec,
                recursion_desired: o.recursion_desired,
                system_resolver: sys,
                spread: Some(spread),
                schedule: cron_schedule(interval, end_time),
            },
        )
    }
}

/// Parses evtdig arguments.
pub fn parse_evtdig(args: &Vec<String>, interval: u64, end_time: i64, spread: u32) -> (r: TelnetCommand)
    ensures
        r@ == spec_evtdig(args.deep_view(), interval, end_time, spread),
{
    let ghost a = args.deep_view();
    let mut af: u8 = 4;
    let mut protocol = String::from_str("UDP");
    let mut query_type = String::from_str("A");
    let mut query_class = String::from_str("IN");
    let mut use_dnssec = false;
    let mut recursion_desired = true;
    let mut msm_id: u64 = 0;
    let mut target = String::new();
    let mut query_argument = String::new();
    let mut use_resolver = false;
    let mut i: usize = 0;
    while i < args.len()
        invariant
            a == args.deep_view(),
            i <= args@.len(),
            evtdig_scan(a, 0, dig_defaults()) == evtdig_scan(
                a,
                i as int,
                DigOpts {
                    af: af,
                    protocol: protocol@,
                    query_type: query_type@,
                    query_class: query_class@,
                    use_dnssec: use_dnssec,
                    recursion_desired: recursion_desired,
                    msm_id: msm_id,
                    target: target@,
                    query_argument: query_argument@,
                    use_resolver: use_resolver,
                },
            ),
        decreases args.len() - i,
    {
        let arg = &args[i];
        let s = arg.as_str();
        let more = i + 1 < args.len();
        assert(arg@ == a[i as int]);
        if more {
            assert(args[i + 1]@ == a[i + 1]);
        }
        if str_eq(s, "-4") {
            af = 4;
        } else if str_eq(s, "-6") {
            af = 6;
        } else if str_eq(s, "-p") {
            if more {
                i = i + 1;
            }
        } else if str_eq(s, "--soa") {
            query_type = String::from_str("SOA");
            if query_argument.as_str().is_empty() {
                query_argument = String::from_str(".");
            }
        } else if str_eq(s, "--resolv") {
            use_resolver = true;
        } else if str_eq(s, "-h") {
            query_type = String::from_str("TXT");
            query_class = String::from_str("CH");
            query_argument = String::from_str("hostname.bind");
        } else if str_eq(s, "-b") {
            query_type = String::from_str("TXT");
            query_class = String::from_str("CH");
            query_argument = String::from_str("version.bind");
        } else if str_eq(s, "-i") {
            query_type = String::from_str("TXT");
            query_class = String::from_str("CH");
            query_argument = String::from_str("id.server");
        } else if str_eq(s, "-r") {
            use_dnssec = true;
        } else if str_eq(s, "-d") || str_eq(s, "-D") || str_eq(s, "+dnssec") {
            use_dnssec = true;
        } else if str_eq(s, "-t") {
            protocol = String::from_str("TCP");
        } else if str_eq(s, "--type") || str_eq(s, "-type") {
            if more {
                query_type = dns_type_name_exec(u16_or(&args[i + 1], 1));
                i = i + 1;
            }
        } else if str_eq(s, "--class") || str_eq(s, "-class") {
            if more {
                query_class = dns_class_name_exec(u16_or(&args[i + 1], 1));
                i = i + 1;
            }
        } else if str_eq(s, "--query") || str_eq(s, "-query") {
            if more {
                query_argument = args[i + 1].clone();
                i = i + 1;
            }
        } else if str_eq(s, "--a") || str_eq(s, "-a") {
            query_type = String::from_str("A");
            if more && !is_flag_exec(&args[i + 1]) {
                query_argument = args[i + 1].clone();
                i = i + 1;
            }
        } else if str_eq(s, "--aaaa") || str_eq(s, "-aaaa") {
            query_type = String::from_str("AAAA");
            if more && !is_flag_exec(&args[i + 1]) {
                query_argument = args[i + 1].clone();
                i = i + 1;
            }
        } else if str_eq(s, "-e") {
            if more {
                i = i + 1;
            }
        } else if str_eq(s, "-R") {
            recursion_desired = false;
        } else if str_eq(s, "--retry") {
            if more {
                i = i + 1;
            }
        } else if str_eq(s, "--qbuf") {
        } else if str_eq(s, "-T") {
            protocol = String::from_str("TCP");
        } else if str_eq(s, "-A") {
            if more {
                msm_id = u64_or(&args[i + 1], 0);
                i = i + 1;
            }
        } else if str_eq(s, "-O") {
            if more {
                i = i + 1;
            }
        } else if starts_with_char(s, '@') {
            let v = chars_of(s);
            target = string_of_range(&v, 1, v.len());
            assert(target@ =~= a[i as int].drop_first());
        } else if starts_with_char(s, '+') {
            if str_eq(s, "+dnssec") || str_eq(s, "+do") {
                use_dnssec = true;
            } else if str_eq(s, "+tcp") {
                protocol = String::from_str("TCP");
            } else if str_eq(s, "+nord") || str_eq(s, "+norecurse") {
                recursion_desired = false;
            }
        } else if starts_with(s, "--") {
        } else if !is_flag_exec(arg) {
            if target.as_str().is_empty() && is_ip_addr(s) {
                target = arg.clone();
            } else if query_argument.as_str().is_empty() {
                query_argument = arg.clone();
            }
        }
        i = i + 1;
    }
    let system_resolver = use_resolver && target.as_str().is_empty();
    if !system_resolver && target.as_str().is_empty() && !query_argument.as_str().is_empty()
        && is_ip_addr(query_argument.as_str()) {
        target = query_argument.clone();
        query_argument = String::from_str(".");
    }
    if !system_resolver && target.as_str().is_empty() {
        return missing_target_exec("evtdig", args);
    }
    if query_argument.as_str().is_empty() {
        query_argument = String::from_str(".");
    }
    let qv = chars_of(query_argument.as_str());
    if ends_with_char(query_argument.as_str(), '.') && qv.len() > 1 {
        query_argument = string_of_range(&qv, 0, qv.len() - 1);
        assert(query_argument@ =~= qv@.drop_last());
    }
    TelnetCommand::Dns(
        DnsSpec {
            msm_id,
            target,
            af,
            protocol,
            query_type,
            query_class,
            query_argument,
            use_dnssec,
            recursion_desired,
            system_resolver,
            spread: Some(spread),
            schedule: ScheduleSpec { interval, start_time: 0, stop_time: end_time },
        },
    )
}


} // verus!
