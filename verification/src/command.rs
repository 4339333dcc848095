//! Reading one command line from the controller: a JSON measurement
//! specification, a busybox `CRONLINE`, or one of the plain keywords.
use crate::json::{
    array_strings, as_bool, as_i64, as_str, as_u64, opt_bool, opt_i64, opt_str, opt_u64, parse_json,
    spec_get, spec_parse_json, strings_of, JsonValue,
};
use crate::telnet::{
    parse_evhttpget, parse_evntp, parse_evping, parse_evsslgetcert, parse_evtdig,
    parse_evtraceroute, spec_evhttpget, spec_evntp, spec_evping, spec_evsslgetcert, spec_evtdig,
    spec_evtraceroute, spec_tokenize_cronline, tokenize_cronline, int_or, uint_or, CommandView,
    DnsSpec, DnsView, HttpSpec, HttpView, NtpSpec, NtpView, PingSpec, PingView, ScheduleSpec,
    TelnetCommand, TlsSpec, TlsView, TracerouteSpec, TracerouteView,
};
use crate::text::{
    concat, parse_i64, parse_u32, parse_u64, spec_parse_unsigned, spec_split_whitespace,
    spec_to_lowercase, spec_to_uppercase, split_whitespace, starts_with_char, str_eq, to_lowercase,
    to_uppercase,
};
use vstd::prelude::*;

verus! {

// ---------------------------------------------------------------------
// CRONLINE
// ---------------------------------------------------------------------

/// Whether `c` names one of the Atlas housekeeping commands that a
/// CRONLINE may carry and that are no measurements.
pub open spec fn is_internal_command(c: Seq<char>) -> bool {
    c == "httppost"@ || c == "condmv"@ || c == "rptaddrs"@ || c == "buddyinfo"@ || c
        == "conntrack"@ || c == "dfrm"@
}

/// What a CRONLINE command means.
///
/// `CRONLINE <interval> <offset> <end_time> <spread_type> <spread> <cmd> <args...>`:
/// fewer than seven tokens is not understood; a number that does not read
/// counts as 0; the measurement command picks the parser of its arguments.
pub open spec fn spec_cronline(cmd: Seq<char>) -> CommandView {
    let t = spec_tokenize_cronline(cmd);
    if t.len() < 7 {
        CommandView::Unknown(cmd)
    } else {
        let interval = uint_or(t[1], u64::MAX as int, 0) as u64;
        let end_time = int_or(t[3], 0) as i64;
        let spread = uint_or(t[5], u32::MAX as int, 0) as u32;
        let c = t[6];
        let a = t.skip(7);
        if c == "evping"@ {
            spec_evping(a, interval, end_time, spread)
        } else if c == "evtraceroute"@ {
            spec_evtraceroute(a, interval, end_time, spread)
        } else if c == "evtdig"@ {
            spec_evtdig(a, interval, end_time, spread)
        } else if c == "evhttpget"@ {
            spec_evhttpget(a, interval, end_time, spread)
        } else if c == "evsslgetcert"@ {
            spec_evsslgetcert(a, interval, end_time, spread)
        } else if c == "evntp"@ {
            spec_evntp(a, interval, end_time, spread)
        } else if is_internal_command(c) {
            CommandView::Ignored(cmd)
        } else {
            CommandView::Unknown(cmd)
        }
    }
}

fn is_internal_command_exec(c: &str) -> (r: bool)
    ensures
        r == is_internal_command(c@),
{
    str_eq(c, "httppost") || str_eq(c, "condmv") || str_eq(c, "rptaddrs") || str_eq(c, "buddyinfo")
        || str_eq(c, "conntrack") || str_eq(c, "dfrm")
}

/// Parses a CRONLINE command from the Atlas controller.
pub fn parse_cronline(cmd: &str) -> (r: TelnetCommand)
    ensures
        r@ == spec_cronline(cmd@),
{
    let tokens = tokenize_cronline(cmd);
    if tokens.len() < 7 {
        return TelnetCommand::Unknown(String::from_str(cmd));
    }
    let ghost t = tokens.deep_view();
    assert(t[1] == tokens@[1]@ && t[3] == tokens@[3]@ && t[5] == tokens@[5]@ && t[6]
        == tokens@[6]@);
    let interval = match parse_u64(tokens[1].as_str()) {
        Some(v) => v,
        None => 0,
    };
    let end_time = match parse_i64(tokens[3].as_str()) {
        Some(v) => v,
        None => 0,
    };
    let spread = match parse_u32(tokens[5].as_str()) {
        Some(v) => v,
        None => 0,
    };
    let mut args: Vec<String> = Vec::new();
    let mut i: usize = 7;
    while i < tokens.len()
        invariant
            7 <= i <= tokens@.len(),
            t == tokens.deep_view(),
            args.deep_view() == t.subrange(7, i as int),
        decreases tokens.len() - i,
    {
        let ghost before = args.deep_view();
        args.push(tokens[i].clone());
        assert(args.deep_view() =~= t.subrange(7, i as int + 1)) by {
            assert(args.deep_view() =~= before.push(tokens@[i as int]@));
        }
        i = i + 1;
    }
    assert(t.subrange(7, t.len() as int) =~= t.skip(7));
    let c = tokens[6].as_str();
    if str_eq(c, "evping") {
        parse_evping(&args, interval, end_time, spread)
    } else if str_eq(c, "evtraceroute") {
        parse_evtraceroute(&args, interval, end_time, spread)
    } else if str_eq(c, "evtdig") {
        parse_evtdig(&args, interval, end_time, spread)
    } else if str_eq(c, "evhttpget") {
        parse_evhttpget(&args, interval, end_time, spread)
    } else if str_eq(c, "evsslgetcert") {
        parse_evsslgetcert(&args, interval, end_time, spread)
    } else if str_eq(c, "evntp") {
        parse_evntp(&args, interval, end_time, spread)
    } else if is_internal_command_exec(c) {
        TelnetCommand::Ignored(String::from_str(cmd))
    } else {
        TelnetCommand::Unknown(String::from_str(cmd))
    }
}

// ---------------------------------------------------------------------
// JSON specifications
// ---------------------------------------------------------------------

/// The unsigned member `key` of `v`, or `d` when it is missing or not an
/// unsigned integer.
pub open spec fn json_u64_or(v: JsonValue, key: Seq<char>, d: u64) -> u64 {
    match opt_u64(spec_get(v, key)) {
        Some(n) => n,
        None => d,
    }
}

/// The signed member `key` of `v`, or `d`.
pub open spec fn json_i64_or(v: JsonValue, key: Seq<char>, d: i64) -> i64 {
    match opt_i64(spec_get(v, key)) {
        Some(n) => n,
        None => d,
    }
}

/// The string member `key` of `v`, or `d`.
pub open spec fn json_str_or(v: JsonValue, key: Seq<char>, d: Seq<char>) -> Seq<char> {
    match opt_str(spec_get(v, key)) {
        Some(s) => s,
        None => d,
    }
}

/// The boolean member `key` of `v`, or `d`.
pub open spec fn json_bool_or(v: JsonValue, key: Seq<char>, d: bool) -> bool {
    match opt_bool(spec_get(v, key)) {
        Some(b) => b,
        None => d,
    }
}

/// The unsigned member `key` of `v` cut to 32 bits, when there is one.
pub open spec fn json_u32_opt(v: JsonValue, key: Seq<char>) -> Option<u32> {
    match opt_u64(spec_get(v, key)) {
        Some(n) => Some(n as u32),
        None => None,
    }
}

/// The member `first`, or when there is none the member `second`.
pub open spec fn get_either(v: JsonValue, first: Seq<char>, second: Seq<char>) -> Option<
    JsonValue,
> {
    match spec_get(v, first) {
        Some(x) => Some(x),
        None => spec_get(v, second),
    }
}

/// The string members of the array member `key`; empty when there is no
/// such array.
pub open spec fn json_strings(v: JsonValue, key: Seq<char>) -> Seq<Seq<char>> {
    match spec_get(v, key) {
        Some(JsonValue::Array(items)) => array_strings(items@),
        _ => seq![],
    }
}

fn get_u64_or(v: &JsonValue, key: &str, d: u64) -> (r: u64)
    ensures
        r == json_u64_or(*v, key@, d),
{
    match as_u64(v.get(key)) {
        Some(n) => n,
        None => d,
    }
}

fn get_i64_or(v: &JsonValue, key: &str, d: i64) -> (r: i64)
    ensures
        r == json_i64_or(*v, key@, d),
{
    match as_i64(v.get(key)) {
        Some(n) => n,
        None => d,
    }
}

fn get_str_or(v: &JsonValue, key: &str, d: &str) -> (r: String)
    ensures
        r@ == json_str_or(*v, key@, d@),
{
    match as_str(v.get(key)) {
        Some(s) => s.clone(),
        None => String::from_str(d),
    }
}

fn get_bool_or(v: &JsonValue, key: &str, d: bool) -> (r: bool)
    ensures
        r == json_bool_or(*v, key@, d),
{
    match as_bool(v.get(key)) {
        Some(b) => b,
        None => d,
    }
}

fn get_u32_opt(v: &JsonValue, key: &str) -> (r: Option<u32>)
    ensures
        r == json_u32_opt(*v, key@),
{
    match as_u64(v.get(key)) {
        Some(n) => Some(n as u32),
        None => None,
    }
}

fn get_either_exec<'a>(v: &'a JsonValue, first: &str, second: &str) -> (r: Option<&'a JsonValue>)
    ensures
        match get_either(*v, first@, second@) {
            Some(x) => r matches Some(y) && *y == x,
            None => r is None,
        },
{
    match v.get(first) {
        Some(x) => Some(x),
        None => v.get(second),
    }
}

fn get_strings(v: &JsonValue, key: &str) -> (r: Vec<String>)
    ensures
        r.deep_view() == json_strings(*v, key@),
{
    match v.get(key) {
        Some(JsonValue::Array(items)) => strings_of(items),
        _ => Vec::new(),
    }
}

/// The schedule fields of a JSON specification; each missing one is 0.
pub open spec fn spec_schedule(v: JsonValue) -> ScheduleSpec {
    ScheduleSpec {
        interval: json_u64_or(v, "interval"@, 0),
        start_time: json_i64_or(v, "start_time"@, 0),
        stop_time: json_i64_or(v, "stop_time"@, 0),
    }
}

/// Reads the scheduling fields of a JSON specification.
pub fn parse_schedule(spec: &JsonValue) -> (r: ScheduleSpec)
    ensures
        r == spec_schedule(*spec),
{
    ScheduleSpec {
        interval: get_u64_or(spec, "interval", 0),
        start_time: get_i64_or(spec, "start_time", 0),
        stop_time: get_i64_or(spec, "stop_time", 0),
    }
}

/// The target of a JSON specification: `target`, else `dst_name`, when a
/// string; else empty.
pub open spec fn json_target(v: JsonValue) -> Seq<char> {
    match opt_str(get_either(v, "target"@, "dst_name"@)) {
        Some(s) => s,
        None => ""@,
    }
}

/// What a JSON measurement specification asks for.
///
/// `type` (any case) picks the measurement; each field that is missing or
/// of the wrong kind takes its default, and numbers are cut to the width
/// of their field. Another type is not understood.
pub open spec fn spec_json_command(v: JsonValue) -> CommandView {
    let t = spec_to_lowercase(json_str_or(v, "type"@, ""@));
    let msm_id = json_u64_or(v, "msm_id"@, 0);
    let target = json_target(v);
    let af = json_u64_or(v, "af"@, 4) as u8;
    let spread = json_u32_opt(v, "spread"@);
    let schedule = spec_schedule(v);
    if t == "ping"@ {
        CommandView::Ping(
            PingView {
                msm_id,
                target,
                af,
                packets: json_u64_or(v, "packets"@, 3) as u32,
                size: json_u64_or(v, "size"@, 64) as u16,
                packet_interval: json_u64_or(v, "packet_interval"@, 1000) as u32,
                spread,
                schedule,
            },
        )
    } else if t == "traceroute"@ {
        CommandView::Traceroute(
            TracerouteView {
                msm_id,
                target,
                af,
                protocol: json_str_or(v, "protocol"@, "ICMP"@),
                paris: json_u32_opt(v, "paris"@),
                first_hop: json_u64_or(v, "first_hop"@, 1) as u8,
                max_hops: json_u64_or(v, "max_hops"@, 32) as u8,
                size: json_u64_or(v, "size"@, 40) as u16,
                spread,
                schedule,
            },
        )
    } else if t == "dns"@ {
        CommandView::Dns(
            DnsView {
                msm_id,
                target,
                af,
                protocol: json_str_or(v, "protocol"@, "UDP"@),
                query_type: json_str_or(v, "query_type"@, "A"@),
                query_class: json_str_or(v, "query_class"@, "IN"@),
                query_argument: json_str_or(v, "query_argument"@, ""@),
                use_dnssec: json_bool_or(v, "use_dnssec"@, false),
                recursion_desired: json_bool_or(v, "recursion_desired"@, true),
                system_resolver: false,
                spread,
                schedule,
            },
        )
    } else if t == "http"@ || t == "https"@ {
        CommandView::Http(
            HttpView {
                msm_id,
                url: match opt_str(get_either(v, "url"@, "target"@)) {
                    Some(s) => s,
                    None => ""@,
                },
                method: json_str_or(v, "method"@, "GET"@),
                af,
                headers: json_strings(v, "headers"@),
                body: opt_str(spec_get(v, "body"@)),
                max_body_size: json_u32_opt(v, "max_body_size"@),
                spread,
                schedule,
            },
        )
    } else if t == "sslcert"@ || t == "tls"@ {
        CommandView::Tls(
            TlsView {
                msm_id,
                target,
                port: json_u64_or(v, "port"@, 443) as u16,
                af,
                hostname: match opt_str(spec_get(v, "hostname"@)) {
                    Some(h) => Some(h),
                    None => Some(target),
                },
                spread,
                schedule,
            },
        )
    } else if t == "ntp"@ {
        CommandView::Ntp(
            NtpView {
                msm_id,
                target,
                af,
                packets: json_u64_or(v, "packets"@, 3) as u32,
                spread,
                schedule,
            },
        )
    } else {
        CommandView::Unknown("Unknown measurement type: "@ + t)
    }
}

/// Reads a JSON measurement specification.
pub fn parse_json_command(spec: &JsonValue) -> (r: TelnetCommand)
    ensures
        r@ == spec_json_command(*spec),
{
    let type_text = get_str_or(spec, "type", "");
    let msm_type = to_lowercase(type_text.as_str());
    let t = msm_type.as_str();
    let msm_id = get_u64_or(spec, "msm_id", 0);
    let target = match as_str(get_either_exec(spec, "target", "dst_name")) {
        Some(s) => s.clone(),
        None => String::from_str(""),
    };
    let af = get_u64_or(spec, "af", 4) as u8;
    let spread = get_u32_opt(spec, "spread");
    let schedule = parse_schedule(spec);
    if str_eq(t, "ping") {
        TelnetCommand::Ping(
            PingSpec {
                msm_id,
                target,
                af,
                packets: get_u64_or(spec, "packets", 3) as u32,
                size: get_u64_or(spec, "size", 64) as u16,
                packet_interval: get_u64_or(spec, "packet_interval", 1000) as u32,
                spread,
                schedule,
            },
        )
    } else if str_eq(t, "traceroute") {
        TelnetCommand::Traceroute(
            TracerouteSpec {
                msm_id,
                target,
                af,
                protocol: get_str_or(spec, "protocol", "ICMP"),
                paris: get_u32_opt(spec, "paris"),
                first_hop: get_u64_or(spec, "first_hop", 1) as u8,
                max_hops: get_u64_or(spec, "max_hops", 32) as u8,
                size: get_u64_or(spec, "size", 40) as u16,
                spread,
                schedule,
            },
        )
    } else if str_eq(t, "dns") {
        TelnetCommand::Dns(
            DnsSpec {
                msm_id,
                target,
                af,
                protocol: get_str_or(spec, "protocol", "UDP"),
                query_type: get_str_or(spec, "query_type", "A"),
                query_class: get_str_or(spec, "query_class", "IN"),
                query_argument: get_str_or(spec, "query_argument", ""),
                use_dnssec: get_bool_or(spec, "use_dnssec", false),
                recursion_desired: get_bool_or(spec, "recursion_desired", true),
                system_resolver: false,
                spread,
                schedule,
            },
        )
    } else if str_eq(t, "http") || str_eq(t, "https") {
        let url = match as_str(get_either_exec(spec, "url", "target")) {
            Some(s) => s.clone(),
            None => String::from_str(""),
        };
        let body = match as_str(spec.get("body")) {
            Some(s) => Some(s.clone()),
            None => None,
        };
        TelnetCommand::Http(
            HttpSpec {
                msm_id,
                url,
                method: get_str_or(spec, "method", "GET"),
                af,
                headers: get_strings(spec, "headers"),
                body,
                max_body_size: get_u32_opt(spec, "max_body_size"),
                spread,
                schedule,
            },
        )
    } else if str_eq(t, "sslcert") || str_eq(t, "tls") {
        let hostname = match as_str(spec.get("hostname")) {
            Some(h) => Some(h.clone()),
            None => Some(target.clone()),
        };
        TelnetCommand::Tls(
            TlsSpec {
                msm_id,
                target,
                port: get_u64_or(spec, "port", 443) as u16,
                af,
                hostname,
                spread,
                schedule,
            },
        )
    } else if str_eq(t, "ntp") {
        TelnetCommand::Ntp(
            NtpSpec {
                msm_id,
                target,
                af,
                packets: get_u64_or(spec, "packets", 3) as u32,
                spread,
                schedule,
            },
        )
    } else {
        TelnetCommand::Unknown(concat("Unknown measurement type: ", t))
    }
}

// ---------------------------------------------------------------------
// Command lines
// ---------------------------------------------------------------------

/// What a command line from the controller means.
///
/// A line that starts with `{` and reads as JSON is a measurement
/// specification. Otherwise the first word, in any case, decides:
/// `STATUS`; `STOP <msm_id>`; `CRONLINE ...`; `CRONTAB ...`, which is
/// acknowledged and ignored. Anything else is not understood.
pub open spec fn spec_command(c: Seq<char>) -> CommandView {
    if c.len() > 0 && c[0] == '{' && spec_parse_json(c) is Some {
        spec_json_command(spec_parse_json(c)->0)
    } else {
        let parts = spec_split_whitespace(c);
        if parts.len() == 0 {
            CommandView::Unknown(c)
        } else {
            let w = spec_to_uppercase(parts[0]);
            if w == "STATUS"@ {
                CommandView::Status
            } else if w == "STOP"@ && parts.len() >= 2 {
                match spec_parse_unsigned(parts[1], u64::MAX as int) {
                    Some(id) => CommandView::Stop(id as u64),
                    None => CommandView::Unknown(c),
                }
            } else if w == "CRONLINE"@ {
                spec_cronline(c)
            } else if w == "CRONTAB"@ {
                CommandView::Ignored(c)
            } else {
                CommandView::Unknown(c)
            }
        }
    }
}

/// Parses a command line into a `TelnetCommand`.
pub fn parse_command(cmd: &str) -> (r: TelnetCommand)
    ensures
        r@ == spec_command(cmd@),
{
    if starts_with_char(cmd, '{') {
        if let Some(spec) = parse_json(cmd) {
            return parse_json_command(&spec);
        }
    }
    let parts = split_whitespace(cmd);
    if parts.len() == 0 {
        return TelnetCommand::Unknown(String::from_str(cmd));
    }
    let ghost p = parts.deep_view();
    assert(p[0] == parts@[0]@);
    let word = to_uppercase(parts[0].as_str());
    let w = word.as_str();
    if str_eq(w, "STATUS") {
        TelnetCommand::Status
    } else if str_eq(w, "STOP") && parts.len() >= 2 {
        assert(p[1] == parts@[1]@);
        match parse_u64(parts[1].as_str()) {
            Some(id) => TelnetCommand::Stop(id),
            None => TelnetCommand::Unknown(String::from_str(cmd)),
        }
    } else if str_eq(w, "CRONLINE") {
        parse_cronline(cmd)
    } else if str_eq(w, "CRONTAB") {
        TelnetCommand::Ignored(String::from_str(cmd))
    } else {
        TelnetCommand::Unknown(String::from_str(cmd))
    }
}

} // verus!
