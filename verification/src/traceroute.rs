//! Traceroute results in the text the Atlas probe reports.
use crate::icmp::IcmpResponse;
use crate::text::{decimal, join_strings, push_decimal, push_signed_decimal, signed_decimal, spec_join};
use vstd::prelude::*;

verus! {

/// The protocol of a traceroute.
#[derive(Debug, Clone, Copy, PartialEq, Eq, Structural)]
pub enum TracerouteProtocol {
    ICMP,
    UDP,
    TCP,
}

/// Which implementation runs a traceroute.
#[derive(Debug, Clone, Copy, PartialEq, Eq, Structural)]
pub enum TracerouteBackend {
    Native,
    Scamper,
}

impl Default for TracerouteBackend {
    fn default() -> (r: Self)
        ensures
            r == TracerouteBackend::Native,
    {
        TracerouteBackend::Native
    }
}

/// The protocol's name in results.
pub open spec fn protocol_name(p: TracerouteProtocol) -> Seq<char> {
    match p {
        TracerouteProtocol::ICMP => "ICMP"@,
        TracerouteProtocol::UDP => "UDP"@,
        TracerouteProtocol::TCP => "TCP"@,
    }
}

/// The protocols are named `ICMP`, `UDP` and `TCP` in results, so that no
/// two protocols share a name and a result tells which protocol ran.
pub proof fn lemma_protocol_names()
    ensures
        protocol_name(TracerouteProtocol::ICMP) == "ICMP"@,
        protocol_name(TracerouteProtocol::UDP) == "UDP"@,
        protocol_name(TracerouteProtocol::TCP) == "TCP"@,
        forall|p: TracerouteProtocol, q: TracerouteProtocol|
            #[trigger] protocol_name(p) == #[trigger] protocol_name(q) ==> p == q,
{
    reveal_strlit("ICMP");
    reveal_strlit("UDP");
    reveal_strlit("TCP");
    assert("ICMP"@[0] == 'I');
    assert("UDP"@[0] == 'U');
    assert("TCP"@[0] == 'T');
    assert forall|p: TracerouteProtocol, q: TracerouteProtocol|
        #[trigger] protocol_name(p) == #[trigger] protocol_name(q) implies p == q by {
        assert(protocol_name(p)[0] == protocol_name(q)[0]);
    }
}

impl TracerouteProtocol {
    /// The protocol's name in results: `ICMP`, `UDP` or `TCP`.
    pub fn as_str(&self) -> (r: &'static str)
        ensures
            r@ == protocol_name(*self),
    {
        match self {
            TracerouteProtocol::ICMP => "ICMP",
            TracerouteProtocol::UDP => "UDP",
            TracerouteProtocol::TCP => "TCP",
        }
    }
}

/// One probe of a hop. The round-trip time is held as the text the result
/// shows (milliseconds with three decimals).
#[derive(Debug, Clone)]
pub struct ProbeResult {
    /// Source address of the response
    pub from: Option<String>,
    /// Round-trip time, printed
    pub rtt: Option<String>,
    /// TTL of the response
    pub ttl: Option<u8>,
    /// Size of the response
    pub size: Option<usize>,
    /// ICMP type of the response
    pub icmptype: Option<u8>,
    /// Timeout marker
    pub x: Option<String>,
    /// Error message
    pub err: Option<String>,
}

/// One hop of a traceroute.
#[derive(Debug, Clone)]
pub struct TracerouteHop {
    /// Hop number (the TTL used)
    pub hop: u8,
    /// The probes sent with that TTL
    pub result: Vec<ProbeResult>,
}

/// The text of one probe: a timeout, an error, or what came back.
pub open spec fn probe_text(p: ProbeResult) -> Seq<char> {
    match p.x {
        Some(x) => "{ \"x\":\""@ + x@ + "\" }"@,
        None => match p.err {
            Some(e) => "{ \"error\":\""@ + e@ + "\" }"@,
            None => "{ "@ + match p.from {
                Some(f) => "\"from\":\""@ + f@ + "\", "@,
                None => seq![],
            } + match p.ttl {
                Some(t) => "\"ttl\":"@ + decimal(t as nat) + ", "@,
                None => seq![],
            } + match p.size {
                Some(s) => "\"size\":"@ + decimal(s as nat) + ", "@,
                None => seq![],
            } + match p.rtt {
                Some(r) => "\"rtt\":"@ + r@,
                None => seq![],
            } + " }"@,
        },
    }
}

/// The text of one hop: its number and its probes.
pub open spec fn hop_text(h: TracerouteHop) -> Seq<char> {
    "{ \"hop\":"@ + decimal(h.hop as nat) + ", \"result\": [ "@ + spec_join(
        Seq::new(h.result@.len(), |i: int| probe_text(h.result@[i])),
        ", "@,
    ) + " ] }"@
}

/// The text of all hops, as the Atlas probe prints them.
pub open spec fn hops_text(hops: Seq<TracerouteHop>) -> Seq<char> {
    "[ "@ + spec_join(Seq::new(hops.len(), |i: int| hop_text(hops[i])), ", "@) + " ]"@
}

fn probe_text_exec(p: &ProbeResult) -> (r: String)
    ensures
        r@ == probe_text(*p),
{
    if let Some(x) = &p.x {
        let mut s = String::from_str("{ \"x\":\"");
        s.append(x.as_str());
        s.append("\" }");
        return s;
    }
    if let Some(e) = &p.err {
        let mut s = String::from_str("{ \"error\":\"");
        s.append(e.as_str());
        s.append("\" }");
        return s;
    }
    let mut s = String::from_str("{ ");
    let ghost s0 = s@;
    if let Some(f) = &p.from {
        s.append("\"from\":\"");
        s.append(f.as_str());
        s.append("\", ");
    }
    let ghost s1 = s@;
    if let Some(t) = p.ttl {
        s.append("\"ttl\":");
        push_decimal(&mut s, t as u64);
        s.append(", ");
    }
    let ghost s2 = s@;
    if let Some(z) = p.size {
        s.append("\"size\":");
        push_decimal(&mut s, z as u64);
        s.append(", ");
    }
    let ghost s3 = s@;
    if let Some(r) = &p.rtt {
        s.append("\"rtt\":");
        s.append(r.as_str());
    }
    s.append(" }");
    proof {
        reveal_strlit("{ ");
        assert(s@ =~= probe_text(*p));
    }
    s
}

fn hop_text_exec(h: &TracerouteHop) -> (r: String)
    ensures
        r@ == hop_text(*h),
{
    let mut parts: Vec<String> = Vec::new();
    let ghost want = Seq::new(h.result@.len(), |i: int| probe_text(h.result@[i]));
    let mut i: usize = 0;
    while i < h.result.len()
        invariant
            i <= h.result@.len(),
            want == Seq::new(h.result@.len(), |i: int| probe_text(h.result@[i])),
            parts.deep_view() == want.take(i as int),
        decreases h.result.len() - i,
    {
        let t = probe_text_exec(&h.result[i]);
        let ghost before = parts.deep_view();
        parts.push(t);
        assert(parts.deep_view() =~= want.take(i as int + 1)) by {
            assert(parts.deep_view() =~= before.push(parts@[i as int]@));
        }
        i = i + 1;
    }
    assert(want.take(want.len() as int) =~= want);
    let joined = join_strings(&parts, ", ");
    let mut s = String::from_str("{ \"hop\":");
    push_decimal(&mut s, h.hop as u64);
    s.append(", \"result\": [ ");
    s.append(joined.as_str());
    s.append(" ] }");
    s
}

/// Formats traceroute hops as the Atlas probe does.
pub fn format_traceroute_hops(hops: &Vec<TracerouteHop>) -> (r: String)
    ensures
        r@ == hops_text(hops@),
{
    let mut parts: Vec<String> = Vec::new();
    let ghost want = Seq::new(hops@.len(), |i: int| hop_text(hops@[i]));
    let mut i: usize = 0;
    while i < hops.len()
        invariant
            i <= hops@.len(),
            want == Seq::new(hops@.len(), |i: int| hop_text(hops@[i])),
            parts.deep_view() == want.take(i as int),
        decreases hops.len() - i,
    {
        let t = hop_text_exec(&hops[i]);
        let ghost before = parts.deep_view();
        parts.push(t);
        assert(parts.deep_view() =~= want.take(i as int + 1)) by {
            assert(parts.deep_view() =~= before.push(parts@[i as int]@));
        }
        i = i + 1;
    }
    assert(want.take(want.len() as int) =~= want);
    let joined = join_strings(&parts, ", ");
    let mut s = String::from_str("[ ");
    s.append(joined.as_str());
    s.append(" ]");
    s
}

/// What a traceroute result line holds besides its envelope.
#[derive(Debug, Clone)]
pub struct TracerouteReport {
    pub msm_id: u64,
    pub firmware_version: u32,
    pub start_time: i64,
    pub end_time: i64,
    pub dst: String,
    pub src: String,
    pub protocol: TracerouteProtocol,
    pub af: u8,
    pub size: u16,
    pub paris_id: u16,
}

/// The body of a traceroute result line.
pub open spec fn spec_traceroute_body(rep: TracerouteReport, hops: Seq<char>) -> Seq<char> {
    "\"id\":\""@ + decimal(rep.msm_id as nat) + "\", \"fw\":"@ + decimal(
        rep.firmware_version as nat,
    ) + ", \"mver\": \"2.6.4\", \"lts\":0, \"time\":"@ + signed_decimal(rep.start_time as int)
        + ", \"endtime\":"@ + signed_decimal(rep.end_time as int) + ", \"dst_name\":\""@
        + rep.dst@ + "\", \"dst_addr\":\""@ + rep.dst@ + "\", \"src_addr\":\""@ + rep.src@
        + "\", \"proto\":\""@ + protocol_name(rep.protocol) + "\", \"af\": "@ + decimal(
        rep.af as nat,
    ) + ", \"size\":"@ + decimal(rep.size as nat) + ", \"paris_id\":"@ + decimal(
        rep.paris_id as nat,
    ) + ", \"result\": "@ + hops
}

/// Each field of a traceroute result body holds what it is named after:
/// the start and end times follow `time` and `endtime`; the protocol's name
/// follows `proto`, then come the address family, the packet size and the
/// Paris id, each after its own name, and the hops close the body.
pub proof fn lemma_traceroute_body_fields(rep: TracerouteReport, hops: Seq<char>)
    ensures
        exists|p: Seq<char>, q: Seq<char>|
            spec_traceroute_body(rep, hops) == p + ", \"time\":"@ + signed_decimal(
                rep.start_time as int,
            ) + ", \"endtime\":"@ + signed_decimal(rep.end_time as int) + q,
        exists|p: Seq<char>|
            spec_traceroute_body(rep, hops) == p + "\", \"proto\":\""@ + protocol_name(rep.protocol)
                + "\", \"af\": "@ + decimal(rep.af as nat) + ", \"size\":"@ + decimal(
                rep.size as nat,
            ) + ", \"paris_id\":"@ + decimal(rep.paris_id as nat) + ", \"result\": "@ + hops,
{
    let body = spec_traceroute_body(rep, hops);
    let p1 = "\"id\":\""@ + decimal(rep.msm_id as nat) + "\", \"fw\":"@ + decimal(
        rep.firmware_version as nat,
    ) + ", \"mver\": \"2.6.4\", \"lts\":0"@;
    let p2 = p1 + ", \"time\":"@ + signed_decimal(rep.start_time as int) + ", \"endtime\":"@
        + signed_decimal(rep.end_time as int);
    let p3 = p2 + ", \"dst_name\":\""@ + rep.dst@ + "\", \"dst_addr\":\""@ + rep.dst@
        + "\", \"src_addr\":\""@ + rep.src@;
    assert(", \"mver\": \"2.6.4\", \"lts\":0, \"time\":"@ == ", \"mver\": \"2.6.4\", \"lts\":0"@
        + ", \"time\":"@) by {
        reveal_strlit(", \"mver\": \"2.6.4\", \"lts\":0, \"time\":");
        reveal_strlit(", \"mver\": \"2.6.4\", \"lts\":0");
        reveal_strlit(", \"time\":");
    }
    assert(body == p3 + "\", \"proto\":\""@ + protocol_name(rep.protocol) + "\", \"af\": "@
        + decimal(rep.af as nat) + ", \"size\":"@ + decimal(rep.size as nat) + ", \"paris_id\":"@
        + decimal(rep.paris_id as nat) + ", \"result\": "@ + hops);
    let rest = body.subrange(p2.len() as int, body.len() as int);
    assert(body == p1 + ", \"time\":"@ + signed_decimal(rep.start_time as int)
        + ", \"endtime\":"@ + signed_decimal(rep.end_time as int) + rest);
}

/// Writes the body of a traceroute result line: the identification and
/// times, destination and source, protocol, family, size, Paris id, then
/// the hops.
pub fn traceroute_body(rep: &TracerouteReport, hops: &Vec<TracerouteHop>) -> (r: String)
    ensures
        r@ == spec_traceroute_body(*rep, hops_text(hops@)),
{
    let mut s = String::from_str("\"id\":\"");
    push_decimal(&mut s, rep.msm_id);
    s.append("\", \"fw\":");
    push_decimal(&mut s, rep.firmware_version as u64);
    s.append(", \"mver\": \"2.6.4\", \"lts\":0, \"time\":");
    push_signed_decimal(&mut s, rep.start_time);
    s.append(", \"endtime\":");
    push_signed_decimal(&mut s, rep.end_time);
    s.append(", \"dst_name\":\"");
    s.append(rep.dst.as_str());
    s.append("\", \"dst_addr\":\"");
    s.append(rep.dst.as_str());
    s.append("\", \"src_addr\":\"");
    s.append(rep.src.as_str());
    s.append("\", \"proto\":\"");
    s.append(rep.protocol.as_str());
    s.append("\", \"af\": ");
    push_decimal(&mut s, rep.af as u64);
    s.append(", \"size\":");
    push_decimal(&mut s, rep.size as u64);
    s.append(", \"paris_id\":");
    push_decimal(&mut s, rep.paris_id as u64);
    s.append(", \"result\": ");
    let h = format_traceroute_hops(hops);
    s.append(h.as_str());
    s
}

// ---------------------------------------------------------------------
// Running an ICMP traceroute
// ---------------------------------------------------------------------

/// Probes sent with each TTL.
pub const QUERIES_PER_HOP: usize = 3;

/// The sequence number of probe `seq` sent with `ttl`: `ttl * 3 + seq`,
/// wrapping at 2^16.
pub open spec fn spec_probe_sequence(ttl: u8, seq: u16) -> u16 {
    ((ttl as int * 3 + seq as int) % 65536) as u16
}

/// Computes the sequence number of a probe.
pub fn probe_sequence(ttl: u8, seq: u16) -> (r: u16)
    ensures
        r == spec_probe_sequence(ttl, seq),
{
    let v: u32 = (ttl as u32) * 3 + (seq as u32);
    (v % 65536) as u16
}

/// How a received ICMP packet bears on the probe with `identifier` and
/// `sequence`: `None` when it does not (the wait goes on), else its ICMP type
/// and whether it came from the target. A time-exceeded message comes from a
/// router on the way; a matching echo reply, or a destination-unreachable
/// message, ends the path.
pub open spec fn spec_classify(resp: Option<IcmpResponse>, is_dgram: bool, identifier: u16, sequence: u16) -> Option<(u8, bool)> {
    match resp {
        Some(IcmpResponse::TimeExceeded(_)) => Some((11u8, false)),
        Some(IcmpResponse::EchoReply { identifier: id, sequence: s }) => if (is_dgram || id
            == identifier) && s == sequence {
            Some((0u8, true))
        } else {
            None
        },
        Some(IcmpResponse::DestinationUnreachable(_)) => Some((3u8, true)),
        _ => None,
    }
}

/// Classifies a received packet (as `parse_icmpv4_packet` or
/// `parse_icmpv6_packet` read it).
pub fn classify_response(resp: &Option<IcmpResponse>, is_dgram: bool, identifier: u16, sequence: u16) -> (r: Option<(u8, bool)>)
    ensures
        r == spec_classify(*resp, is_dgram, identifier, sequence),
{
    match resp {
        Some(IcmpResponse::TimeExceeded(_)) => Some((11u8, false)),
        Some(IcmpResponse::EchoReply { identifier: id, sequence: s }) => {
            if (is_dgram || *id == identifier) && *s == sequence {
                Some((0u8, true))
            } else {
                None
            }
        },
        Some(IcmpResponse::DestinationUnreachable(_)) => Some((3u8, true)),
        _ => None,
    }
}

/// How an ICMP error bears on a UDP or TCP probe: a time-exceeded message
/// comes from a router on the way, a destination-unreachable message from the
/// target's side; anything else is passed over.
pub open spec fn spec_classify_error(resp: Option<IcmpResponse>) -> Option<(u8, bool)> {
    match resp {
        Some(IcmpResponse::TimeExceeded(_)) => Some((11u8, false)),
        Some(IcmpResponse::DestinationUnreachable(_)) => Some((3u8, true)),
        _ => None,
    }
}

/// Classifies an ICMP message received while a UDP or TCP probe waits.
pub fn classify_error(resp: &Option<IcmpResponse>) -> (r: Option<(u8, bool)>)
    ensures
        r == spec_classify_error(*resp),
{
    match resp {
        Some(IcmpResponse::TimeExceeded(_)) => Some((11u8, false)),
        Some(IcmpResponse::DestinationUnreachable(_)) => Some((3u8, true)),
        _ => None,
    }
}

/// The first destination port of UDP probes.
pub const UDP_BASE_PORT: u16 = 33434;

/// The destination port of UDP probe `seq` (0 to 2) sent with `ttl` (at
/// least 1): each probe of the run gets its own port, counted up from
/// 33434.
pub fn udp_probe_port(ttl: u8, seq: u16) -> (r: u16)
    requires
        ttl >= 1,
        seq < 3,
    ensures
        r == 33434 + (ttl - 1) * 3 + seq,
{
    UDP_BASE_PORT + ((ttl - 1) as u16) * 3 + seq
}

/// How one probe ended.
#[derive(Debug, Clone)]
pub enum ProbeOutcome {
    /// A packet answered it: its source, the round-trip time as printed, its
    /// size and ICMP type.
    Answer { from: String, rtt: String, size: usize, icmp_type: u8 },
    /// The socket failed, with this message.
    SocketError(String),
    /// Nothing came before the timeout.
    Timeout,
}

/// The probe result that an outcome gives.
pub open spec fn spec_probe_result(o: ProbeOutcome, r: ProbeResult) -> bool {
    match o {
        ProbeOutcome::Answer { from, rtt, size, icmp_type } => {
            &&& r.from is Some && r.from.unwrap()@ == from@
            &&& r.rtt is Some && r.rtt.unwrap()@ == rtt@
            &&& r.ttl is None
            &&& r.size == Some(size)
            &&& r.icmptype == Some(icmp_type)
            &&& r.x is None
            &&& r.err is None
        },
        ProbeOutcome::SocketError(e) => {
            &&& r.from is None && r.rtt is None && r.ttl is None && r.size is None
            &&& r.icmptype is None && r.x is None
            &&& r.err is Some && r.err.unwrap()@ == "Socket error: "@ + e@
        },
        ProbeOutcome::Timeout => {
            &&& r.from is None && r.rtt is None && r.ttl is None && r.size is None
            &&& r.icmptype is None && r.err is None
            &&& r.x is Some && r.x.unwrap()@ == "*"@
        },
    }
}

/// Makes the result of a probe.
pub fn probe_result(o: ProbeOutcome) -> (r: ProbeResult)
    ensures
        spec_probe_result(o, r),
{
    match o {
        ProbeOutcome::Answer { from, rtt, size, icmp_type } => ProbeResult {
            from: Some(from),
            rtt: Some(rtt),
            ttl: None,
            size: Some(size),
            icmptype: Some(icmp_type),
            x: None,
            err: None,
        },
        ProbeOutcome::SocketError(e) => {
            let mut m = String::from_str("Socket error: ");
            m.append(e.as_str());
            ProbeResult {
                from: None,
                rtt: None,
                ttl: None,
                size: None,
                icmptype: None,
                x: None,
                err: Some(m),
            }
        },
        ProbeOutcome::Timeout => ProbeResult {
            from: None,
            rtt: None,
            ttl: None,
            size: None,
            icmptype: None,
            x: Some(String::from_str("*")),
            err: None,
        },
    }
}

/// A traceroute in progress: TTLs from `first_hop` up to `max_hops`, three
/// probes each, stopping after the first hop that the target answered.
#[derive(Debug, Clone)]
pub struct TracerouteRun {
    pub first_hop: u8,
    pub max_hops: u8,
    /// The TTL of the probes being sent.
    pub ttl: u8,
    /// Whether a probe of the current TTL was answered by the target.
    pub reached: bool,
    /// Whether the traceroute is over.
    pub done: bool,
    /// The completed hops.
    pub hops: Vec<TracerouteHop>,
    /// The results of the current TTL so far.
    pub current: Vec<ProbeResult>,
}

impl TracerouteRun {
    /// The run's invariant: the hops so far have consecutive numbers from
    /// `first_hop` and three results each; while it runs, the current TTL is
    /// the next number, within the range.
    pub open spec fn wf(&self) -> bool {
        &&& self.current@.len() < QUERIES_PER_HOP
        &&& self.done ==> self.current@.len() == 0
        &&& !self.done ==> self.first_hop <= self.ttl <= self.max_hops && self.ttl
            == self.first_hop + self.hops@.len()
        &&& forall|k: int|
            0 <= k < self.hops@.len() ==> (#[trigger] self.hops@[k]).hop == self.first_hop + k
                && self.hops@[k].result@.len() == QUERIES_PER_HOP
    }

    /// A run over the TTLs `first_hop..=max_hops`; over at once when that
    /// range is empty.
    pub fn new(first_hop: u8, max_hops: u8) -> (r: Self)
        ensures
            r.wf(),
            r.first_hop == first_hop,
            r.max_hops == max_hops,
            r.hops@.len() == 0,
            r.done == (first_hop > max_hops),
    {
        TracerouteRun {
            first_hop,
            max_hops,
            ttl: first_hop,
            reached: false,
            done: first_hop > max_hops,
            hops: Vec::new(),
            current: Vec::new(),
        }
    }

    /// The next probe to send: its TTL and sequence number; `None` when the
    /// run is over.
    pub fn next_probe(&self) -> (r: Option<(u8, u16)>)
        requires
            self.wf(),
        ensures
            self.done ==> r is None,
            !self.done ==> r == Some((self.ttl, spec_probe_sequence(self.ttl, self.current@.len() as u16))),
    {
        if self.done {
            None
        } else {
            Some((self.ttl, probe_sequence(self.ttl, self.current.len() as u16)))
        }
    }

    /// Records the result of the probe just sent, and whether the target
    /// answered it. After the third probe of a TTL its hop is complete; the
    /// run ends there if the target answered one of them or the TTL was the
    /// last, and else goes on with the next TTL.
    pub fn record(&mut self, result: ProbeResult, from_target: bool)
        requires
            old(self).wf(),
            !old(self).done,
        ensures
            final(self).wf(),
            final(self).first_hop == old(self).first_hop,
            final(self).max_hops == old(self).max_hops,
            old(self).current@.len() + 1 < QUERIES_PER_HOP ==> {
                &&& final(self).current@ == old(self).current@.push(result)
                &&& final(self).hops@ == old(self).hops@
                &&& final(self).ttl == old(self).ttl
                &&& final(self).reached == (old(self).reached || from_target)
                &&& !final(self).done
            },
            old(self).current@.len() + 1 == QUERIES_PER_HOP ==> {
                &&& final(self).hops@.len() == old(self).hops@.len() + 1
                &&& final(self).hops@.drop_last() == old(self).hops@
                &&& final(self).hops@.last().hop == old(self).ttl
                &&& final(self).hops@.last().result@ == old(self).current@.push(result)
                &&& final(self).current@.len() == 0
                &&& !final(self).reached
                &&& final(self).done == (old(self).reached || from_target || old(self).ttl
                    == old(self).max_hops)
            },
    {
        self.current.push(result);
        self.reached = self.reached || from_target;
        if self.current.len() == QUERIES_PER_HOP {
            let mut results: Vec<ProbeResult> = Vec::new();
            std::mem::swap(&mut results, &mut self.current);
            let hop = TracerouteHop { hop: self.ttl, result: results };
            self.hops.push(hop);
            if self.reached || self.ttl == self.max_hops {
                self.done = true;
            } else {
                self.ttl = self.ttl + 1;
            }
            self.reached = false;
            assert(self.hops@.drop_last() =~= old(self).hops@);
        }
    }
}

/// How a traceroute is run: by scamper, or natively with ICMP, UDP or TCP
/// probes.
#[derive(Debug, Clone, Copy, PartialEq, Eq, Structural)]
pub enum TracerouteMethod {
    Scamper,
    Native(TracerouteProtocol),
}

/// Picks how to run a traceroute with `backend` and `protocol`, on a build
/// that has scamper support (`with_scamper`) and runs on Unix (`unix`) or
/// not. Scamper needs the support built in; UDP and TCP probes need Unix.
pub fn traceroute_method(
    backend: TracerouteBackend,
    protocol: TracerouteProtocol,
    with_scamper: bool,
    unix: bool,
) -> (r: Result<TracerouteMethod, &'static str>)
    ensures
        backend == TracerouteBackend::Scamper ==> (if with_scamper {
            r == Ok::<TracerouteMethod, &'static str>(TracerouteMethod::Scamper)
        } else {
            r is Err && r->Err_0@
                == "scamper backend requested but starla was built without the `scamper` feature"@
        }),
        backend == TracerouteBackend::Native ==> (if protocol == TracerouteProtocol::ICMP || unix {
            r == Ok::<TracerouteMethod, &'static str>(TracerouteMethod::Native(protocol))
        } else {
            r is Err && r->Err_0@ == "UDP and TCP traceroute are not supported on this platform; use ICMP"@
        }),
{
    match backend {
        TracerouteBackend::Scamper => if with_scamper {
            Ok(TracerouteMethod::Scamper)
        } else {
            Err("scamper backend requested but starla was built without the `scamper` feature")
        },
        TracerouteBackend::Native => match protocol {
            TracerouteProtocol::ICMP => Ok(TracerouteMethod::Native(protocol)),
            _ => if unix {
                Ok(TracerouteMethod::Native(protocol))
            } else {
                Err("UDP and TCP traceroute are not supported on this platform; use ICMP")
            },
        },
    }
}

} // verus!
