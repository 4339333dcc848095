//! DNS wire messages, through `hickory-proto`: the query that a measurement
//! sends and the answer records that its result reports.
use crate::dns::{
    be16, expand_query_templates, format_dns_result, format_dns_timeout, is_lower_alnum,
    parse_response, spec_dns_result, spec_expand, AnswerRecord,
};
use crate::ssh::spec_base64_decode;
use crate::tls::{base64_encode, spec_base64};
use crate::ipaddr::{is_ip_addr, spec_is_ip_addr};
use crate::text::{
    contains_char, decimal, push_decimal, push_signed_decimal, signed_decimal, spec_lines,
    spec_split_whitespace, spec_utf8_lossy, split_lines, split_whitespace, str_eq, utf8_lossy,
};
use hickory_proto::op::{Edns, Message, MessageType, OpCode, Query};
use hickory_proto::rr::RData::{A, AAAA, CNAME, MX, NS, SOA, TXT};
use hickory_proto::rr::{DNSClass, Name, RecordType};
use self::RDataView::{Mx, Other, Soa, Text, Txt};
use std::str::FromStr;
use vstd::prelude::*;

verus! {

/// What a DNS measurement asks: the query name (with templates), type and
/// class names, the recursion-desired bit, and the EDNS options.
#[derive(Debug, Clone)]
pub struct DnsQuerySpec {
    pub query_name: String,
    pub query_type: String,
    pub query_class: String,
    pub recursion_desired: bool,
    pub edns_buf_size: Option<u16>,
    pub dnssec: bool,
}

// ---------------------------------------------------------------------
// The query
// ---------------------------------------------------------------------

/// The numeric code of the record type that hickory knows by `name`.
pub uninterp spec fn spec_record_type_code(name: Seq<char>) -> Option<u16>;

/// `RecordType::from_str(name)` as its `u16` code; `None` where hickory
/// knows no record type of that name.
#[verifier::external_body]
fn record_type_code(name: &str) -> (r: Option<u16>)
    ensures
        r == spec_record_type_code(name@),
{
    RecordType::from_str(name).ok().map(u16::from)
}

/// The class code that `DNSClass::from_str` gives each name it knows.
pub open spec fn spec_dns_class_code(name: Seq<char>) -> Option<u16> {
    if name == "IN"@ {
        Some(1u16)
    } else if name == "CH"@ {
        Some(3u16)
    } else if name == "HS"@ {
        Some(4u16)
    } else if name == "NONE"@ {
        Some(254u16)
    } else if name == "ANY"@ || name == "*"@ {
        Some(255u16)
    } else {
        None
    }
}

/// `DNSClass::from_str(name)` as its `u16` code: IN, CH, HS, NONE, and ANY
/// (also written `*`) are known; any other name is an error, here `None`.
#[verifier::external_body]
fn dns_class_code(name: &str) -> (r: Option<u16>)
    ensures
        r == spec_dns_class_code(name@),
{
    DNSClass::from_str(name).ok().map(u16::from)
}

/// The bytes of a query message as `hickory-proto` writes it, or `None`
/// where it refuses the name or the message.
pub uninterp spec fn spec_encode_query(
    id: u16,
    qname: Seq<char>,
    qtype: u16,
    qclass: u16,
    rd: bool,
    edns: Option<(u16, bool)>,
) -> Option<Seq<u8>>;

/// A query message in DNS wire format (`Message::to_vec`): the header with
/// `id`, the query opcode and the recursion-desired bit `rd`; one question
/// for `qname` (`Name::from_str`) with type `qtype` and class `qclass`; and,
/// where `edns` is given, an OPT record with that payload size (raised to
/// 512 at least) and DNSSEC-OK bit. `None` where hickory refuses the name or
/// fails to write the message. The bytes are named, not stated here.
#[verifier::external_body]
fn encode_query(id: u16, qname: &str, qtype: u16, qclass: u16, rd: bool, edns: Option<(u16, bool)>) -> (r: Option<Vec<u8>>)
    ensures
        match r {
            Some(w) => spec_encode_query(id, qname@, qtype, qclass, rd, edns) == Some(w@),
            None => spec_encode_query(id, qname@, qtype, qclass, rd, edns) is None,
        },
{
    let mut msg = Message::new(id, MessageType::Query, OpCode::Query);
    msg.metadata.recursion_desired = rd;
    let name = Name::from_str(qname).ok()?;
    msg.add_query(Query::query(name, RecordType::from(qtype)).set_query_class(DNSClass::from(qclass)).clone());
    msg.edns = edns.map(|(payload, dnssec_ok)| {
        let mut e = Edns::new();
        e.set_max_payload(payload).set_dnssec_ok(dnssec_ok);
        e
    });
    msg.to_vec().ok()
}

/// A random message id (`rand::random`). What it is is chance.
#[verifier::external_body]
fn random_id() -> (r: u16) {
    rand::random()
}

/// The record type asked for: the named type, A (code 1) for a name that
/// hickory does not know.
pub open spec fn type_or_a(code: Option<u16>) -> u16 {
    match code {
        Some(c) => c,
        None => 1u16,
    }
}

/// The class asked for: the named class, IN (code 1) for an unknown name.
pub open spec fn class_or_in(code: Option<u16>) -> u16 {
    match code {
        Some(c) => c,
        None => 1u16,
    }
}

/// The EDNS options of a query: present when DNSSEC is asked for or a
/// buffer size is given; the payload size is that buffer size, 4096 when
/// none is given.
pub open spec fn spec_edns_option(dnssec: bool, buf: Option<u16>) -> Option<(u16, bool)> {
    if dnssec || buf is Some {
        Some(
            (
                match buf {
                    Some(b) => b,
                    None => 4096u16,
                },
                dnssec,
            ),
        )
    } else {
        None
    }
}

/// The wire query of `spec` with message id `id` for the (already expanded)
/// name `qname`.
pub open spec fn spec_query_wire(spec: DnsQuerySpec, id: u16, qname: Seq<char>) -> Option<Seq<u8>> {
    spec_encode_query(
        id,
        qname,
        type_or_a(spec_record_type_code(spec.query_type@)),
        class_or_in(spec_dns_class_code(spec.query_class@)),
        spec.recursion_desired,
        spec_edns_option(spec.dnssec, spec.edns_buf_size),
    )
}

/// Writes the query of `spec` with id `id` for the name `qname`.
pub fn query_wire(spec: &DnsQuerySpec, id: u16, qname: &str) -> (r: Option<Vec<u8>>)
    ensures
        match r {
            Some(w) => spec_query_wire(*spec, id, qname@) == Some(w@),
            None => spec_query_wire(*spec, id, qname@) is None,
        },
{
    let qtype = match record_type_code(spec.query_type.as_str()) {
        Some(c) => c,
        None => 1u16,
    };
    let qclass = match dns_class_code(spec.query_class.as_str()) {
        Some(c) => c,
        None => 1u16,
    };
    let edns = if spec.dnssec || spec.edns_buf_size.is_some() {
        let payload = match spec.edns_buf_size {
            Some(b) => b,
            None => 4096u16,
        };
        Some((payload, spec.dnssec))
    } else {
        None
    };
    encode_query(id, qname, qtype, qclass, spec.recursion_desired, edns)
}

/// Whether `q` is what the query name templates of `name` expand to for
/// `probe_id`, at some time and with some random labels of eight lower-case
/// letters or digits.
pub open spec fn is_expansion(name: Seq<char>, probe_id: u32, q: Seq<char>) -> bool {
    exists|time: u64, randoms: Seq<Seq<char>>|
        #![trigger spec_expand(name, probe_id, time, randoms)]
        (forall|i: int|
            0 <= i < randoms.len() ==> (#[trigger] randoms[i]).len() == 8 && forall|j: int|
                0 <= j < 8 ==> is_lower_alnum(#[trigger] randoms[i][j])) && q == spec_expand(
            name,
            probe_id,
            time,
            randoms,
        )
}

/// Builds the query of a measurement: the templates of its name expanded,
/// a random message id. Returns the id and the wire bytes, or `None` where
/// hickory refuses the expanded name.
pub fn build_query(spec: &DnsQuerySpec, probe_id: u32) -> (r: Option<(u16, Vec<u8>)>)
    ensures
        r is Some ==> exists|q: Seq<char>|
            is_expansion(spec.query_name@, probe_id, q) && #[trigger] spec_query_wire(
                *spec,
                r.unwrap().0,
                q,
            ) == Some(r.unwrap().1@),
        r is None ==> exists|id: u16, q: Seq<char>|
            is_expansion(spec.query_name@, probe_id, q) && (#[trigger] spec_query_wire(
                *spec,
                id,
                q,
            )) is None,
{
    let qname = expand_query_templates(spec.query_name.as_str(), probe_id);
    let id = random_id();
    assert(is_expansion(spec.query_name@, probe_id, qname@));
    match query_wire(spec, id, qname.as_str()) {
        Some(w) => {
            let r = Some((id, w));
            assert(spec_query_wire(*spec, r.unwrap().0, qname@) == Some(r.unwrap().1@));
            r
        },
        None => {
            assert(spec_query_wire(*spec, id, qname@) is None);
            None
        },
    }
}

/// A query over TCP: its length as a big-endian 16-bit prefix (the length
/// taken modulo 65536), then the query.
pub open spec fn spec_tcp_message(query: Seq<u8>) -> Seq<u8> {
    let n = query.len() % 65536;
    seq![(n / 256) as u8, (n % 256) as u8] + query
}

/// Frames a query for DNS over TCP.
pub fn tcp_message(query: &[u8]) -> (r: Vec<u8>)
    ensures
        r@ == spec_tcp_message(query@),
{
    let n: usize = query.len() % 65536;
    let mut out: Vec<u8> = Vec::new();
    out.push((n / 256) as u8);
    out.push((n % 256) as u8);
    let mut i: usize = 0;
    while i < query.len()
        invariant
            i <= query@.len(),
            n == query@.len() % 65536,
            out@ == seq![(n / 256) as u8, (n % 256) as u8] + query@.take(i as int),
        decreases query.len() - i,
    {
        out.push(query[i]);
        i = i + 1;
        assert(out@ =~= seq![(n / 256) as u8, (n % 256) as u8] + query@.take(i as int));
    }
    assert(query@.take(query@.len() as int) =~= query@);
    out
}

// ---------------------------------------------------------------------
// The system's resolver
// ---------------------------------------------------------------------

/// The server that a line of `resolv.conf` names for the address family
/// `af`: the line is `nameserver <address>`, the address an IP address,
/// IPv6 (with a colon) for family 6 and IPv4 otherwise.
pub open spec fn resolv_line_server(line: Seq<char>, af: u8) -> Option<Seq<char>> {
    let w = spec_split_whitespace(line);
    if w.len() >= 2 && w[0] == "nameserver"@ && spec_is_ip_addr(w[1]) && (w[1].contains(':')
        <==> af == 6) {
        Some(w[1])
    } else {
        None
    }
}

/// The first server that the lines name for the family.
pub open spec fn first_nameserver(lines: Seq<Seq<char>>, af: u8) -> Option<Seq<char>>
    decreases lines.len(),
{
    if lines.len() == 0 {
        None
    } else {
        match resolv_line_server(lines[0], af) {
            Some(s) => Some(s),
            None => first_nameserver(lines.drop_first(), af),
        }
    }
}

/// The resolver that the system names in the text of `resolv.conf` for
/// the address family `af`: the first `nameserver` line with an address of
/// that family; `None` when there is none.
pub fn system_nameserver(conf: &str, af: u8) -> (r: Option<String>)
    ensures
        match first_nameserver(spec_lines(conf@), af) {
            Some(s) => r matches Some(t) && t@ == s,
            None => r is None,
        },
{
    let lines = split_lines(conf);
    let ghost ls = lines.deep_view();
    let mut i: usize = 0;
    assert(ls.skip(0) =~= ls);
    while i < lines.len()
        invariant
            i <= lines@.len(),
            ls == lines.deep_view(),
            ls == spec_lines(conf@),
            first_nameserver(ls, af) == first_nameserver(ls.skip(i as int), af),
        decreases lines.len() - i,
    {
        assert(ls.skip(i as int)[0] == lines@[i as int]@);
        assert(ls.skip(i as int).drop_first() =~= ls.skip(i as int + 1));
        let w = split_whitespace(lines[i].as_str());
        let ghost wv = w.deep_view();
        if w.len() >= 2 {
            assert(wv[0] == w@[0]@ && wv[1] == w@[1]@);
            let v6 = contains_char(w[1].as_str(), ':');
            if str_eq(w[0].as_str(), "nameserver") && is_ip_addr(w[1].as_str()) && (v6 == (af == 6)) {
                return Some(w[1].clone());
            }
        }
        i = i + 1;
    }
    None
}

// ---------------------------------------------------------------------
// The answer records
// ---------------------------------------------------------------------

/// The data of an answer record, in the forms that a result reports.
#[derive(Debug, Clone)]
pub enum RDataView {
    /// The character strings of a TXT record.
    Txt(Vec<Vec<u8>>),
    /// An address or a domain name, as printed.
    Text(String),
    /// An MX record: preference and exchange.
    Mx(u16, String),
    /// An SOA record: primary server, responsible mailbox, serial, refresh,
    /// retry, expire, minimum.
    Soa(String, String, u32, i32, i32, i32, u32),
    /// Any other record, as printed for debugging.
    Other(String),
}

/// The data of an answer record as plain values, the view of `RDataView`.
pub enum RDataModel {
    Txt(Seq<Seq<u8>>),
    Text(Seq<char>),
    Mx(u16, Seq<char>),
    Soa(Seq<char>, Seq<char>, u32, i32, i32, i32, u32),
    Other(Seq<char>),
}

impl View for RDataView {
    type V = RDataModel;

    open spec fn view(&self) -> RDataModel {
        match self {
            RDataView::Txt(t) => RDataModel::Txt(t.deep_view()),
            RDataView::Text(s) => RDataModel::Text(s@),
            RDataView::Mx(p, x) => RDataModel::Mx(*p, x@),
            RDataView::Soa(m, r, serial, refresh, retry, expire, minimum) => RDataModel::Soa(
                m@,
                r@,
                *serial,
                *refresh,
                *retry,
                *expire,
                *minimum,
            ),
            RDataView::Other(d) => RDataModel::Other(d@),
        }
    }
}

/// For each answer record of the message `raw`, its type and owner name as
/// hickory prints them and its data in the forms of `RDataView`; `None`
/// when `raw` does not decode as a message.
pub uninterp spec fn spec_answers(raw: Seq<u8>) -> Option<Seq<(Seq<char>, Seq<char>, RDataModel)>>;

/// The answer records of the DNS message `raw` (`Message::from_vec`): for
/// each, its type (`RecordType`'s `Display`), its owner name (`Name`'s
/// `Display`) and its data sorted into the forms of `RDataView`: the
/// strings of TXT; A, AAAA, CNAME and NS as `RData` prints them; the fields
/// of MX and SOA; anything else in its `{:?}` form. `None` when `raw` does
/// not decode. All of it is named by `spec_answers`.
#[verifier::external_body]
fn answer_records(raw: &[u8]) -> (r: Option<Vec<(String, String, RDataView)>>)
    ensures
        match r {
            Some(v) => spec_answers(raw@) == Some(
                Seq::new(v@.len(), |i: int| (v@[i].0@, v@[i].1@, v@[i].2@)),
            ),
            None => spec_answers(raw@) is None,
        },
{
    Some(Message::from_vec(raw).ok()?.answers.into_iter().map(|rr| (rr.record_type().to_string(), rr.name.to_string(), match rr.data {
        TXT(t) => Txt(t.txt_data.iter().map(|s| s.to_vec()).collect()),
        d @ (A(_) | AAAA(_) | CNAME(_) | NS(_)) => Text(d.to_string()),
        MX(m) => Mx(m.preference, m.exchange.to_string()),
        SOA(s) => Soa(s.mname.to_string(), s.rname.to_string(), s.serial, s.refresh, s.retry, s.expire, s.minimum),
        d => Other(format!("{d:?}")),
    })).collect())
}

/// The data items that a result shows for a record: each TXT string decoded
/// as (lossy) UTF-8; an address or name as printed; `preference exchange`
/// for MX; the seven SOA fields separated by spaces; the debug text of any
/// other record.
pub open spec fn spec_format_rdata(v: RDataModel) -> Seq<Seq<char>> {
    match v {
        RDataModel::Txt(t) => Seq::new(t.len(), |i: int| spec_utf8_lossy(t[i])),
        RDataModel::Text(s) => seq![s],
        RDataModel::Mx(p, x) => seq![decimal(p as nat) + " "@ + x],
        RDataModel::Soa(m, r, serial, refresh, retry, expire, minimum) => seq![
            m + " "@ + r + " "@ + decimal(serial as nat) + " "@ + signed_decimal(refresh as int)
                + " "@ + signed_decimal(retry as int) + " "@ + signed_decimal(expire as int) + " "@
                + decimal(minimum as nat),
        ],
        RDataModel::Other(d) => seq![d],
    }
}

/// The data items of a record.
pub fn format_rdata(v: &RDataView) -> (r: Vec<String>)
    ensures
        r.deep_view() == spec_format_rdata(v@),
{
    match v {
        RDataView::Txt(t) => {
            let mut out: Vec<String> = Vec::new();
            let mut i: usize = 0;
            while i < t.len()
                invariant
                    i <= t@.len(),
                    out@.len() == i,
                    forall|k: int| 0 <= k < i ==> (#[trigger] out@[k])@ == spec_utf8_lossy(t@[k]@),
                decreases t.len() - i,
            {
                out.push(utf8_lossy(&t[i]));
                i = i + 1;
            }
            let ghost td = t.deep_view();
            assert(td.len() == t@.len());
            assert forall|k: int| 0 <= k < td.len() implies td[k] == t@[k]@ by {
                assert(t@[k].deep_view() =~= t@[k]@);
            }
            assert(out.deep_view() =~= spec_format_rdata(v@));
            out
        },
        RDataView::Text(s) => {
            let out = vec![s.clone()];
            assert(out.deep_view() =~= spec_format_rdata(v@));
            out
        },
        RDataView::Mx(p, x) => {
            let mut s = String::new();
            push_decimal(&mut s, *p as u64);
            s.append(" ");
            s.append(x.as_str());
            let out = vec![s];
            assert(out.deep_view() =~= spec_format_rdata(v@));
            out
        },
        RDataView::Soa(m, r, serial, refresh, retry, expire, minimum) => {
            let mut s = m.clone();
            s.append(" ");
            s.append(r.as_str());
            s.append(" ");
            push_decimal(&mut s, *serial as u64);
            s.append(" ");
            push_signed_decimal(&mut s, *refresh as i64);
            s.append(" ");
            push_signed_decimal(&mut s, *retry as i64);
            s.append(" ");
            push_signed_decimal(&mut s, *expire as i64);
            s.append(" ");
            push_decimal(&mut s, *minimum as u64);
            let out = vec![s];
            assert(out.deep_view() =~= spec_format_rdata(v@));
            out
        },
        RDataView::Other(d) => {
            let out = vec![d.clone()];
            assert(out.deep_view() =~= spec_format_rdata(v@));
            out
        },
    }
}

/// Whether `a` is the answer record with type `t`, name `n` and the data
/// items of the record data `d`.
pub open spec fn is_answer(a: AnswerRecord, t: Seq<char>, n: Seq<char>, d: RDataModel) -> bool {
    &&& a.record_type@ == t
    &&& a.name@ == n
    &&& a.rdata.deep_view() == spec_format_rdata(d)
}

/// What the answer records read from `raw` are: none when `raw` does not
/// decode or holds no answer; else one for each answer, with its type,
/// name and data items, in order.
pub open spec fn answers_read(raw: Seq<u8>, r: Option<Seq<AnswerRecord>>) -> bool {
    match spec_answers(raw) {
        None => r is None,
        Some(h) => if h.len() == 0 {
            r is None
        } else {
            &&& r is Some
            &&& r.unwrap().len() == h.len()
            &&& forall|i: int| 0 <= i < h.len() ==> is_answer(#[trigger] r.unwrap()[i], h[i].0, h[i].1, h[i].2)
        },
    }
}

/// The answer records of the DNS message `raw`, as a result reports them;
/// `None` when it does not decode or has no answer.
pub fn parse_answers(raw: &[u8]) -> (r: Option<Vec<AnswerRecord>>)
    ensures
        answers_read(
            raw@,
            match r {
                Some(a) => Some(a@),
                None => None,
            },
        ),
{
    let records = match answer_records(raw) {
        Some(v) => v,
        None => return None,
    };
    if records.len() == 0 {
        return None;
    }
    let ghost heads = Seq::new(records@.len(), |i: int| (records@[i].0@, records@[i].1@, records@[i].2@));
    let mut out: Vec<AnswerRecord> = Vec::new();
    let mut i: usize = 0;
    while i < records.len()
        invariant
            i <= records@.len(),
            heads == Seq::new(records@.len(), |i: int| (records@[i].0@, records@[i].1@, records@[i].2@)),
            out@.len() == i,
            forall|k: int| 0 <= k < i ==> is_answer(#[trigger] out@[k], heads[k].0, heads[k].1, heads[k].2),
        decreases records.len() - i,
    {
        let rdata = format_rdata(&records[i].2);
        let a = AnswerRecord {
            record_type: records[i].0.clone(),
            name: records[i].1.clone(),
            rdata,
        };
        assert(is_answer(a, heads[i as int].0, heads[i as int].1, heads[i as int].2));
        out.push(a);
        i = i + 1;
    }
    Some(out)
}

/// The answer records of a result's `abuf`: the base64 text decoded, then
/// read as `parse_answers` reads a message. `None` when the text is not
/// base64.
pub fn decode_answers(abuf: &str) -> (r: Option<Vec<AnswerRecord>>)
    ensures
        match crate::ssh::spec_base64_decode(abuf@) {
            None => r is None,
            Some(raw) => answers_read(
                raw,
                match r {
                    Some(a) => Some(a@),
                    None => None,
                },
            ),
        },
{
    match crate::ssh::base64_decode(abuf) {
        Some(raw) => parse_answers(raw.as_slice()),
        None => None,
    }
}

/// The result text of a DNS query that got the answer `raw` after the
/// round-trip time `rt` (as printed): an answer shorter than a DNS header
/// counts as a failed query, reported like a timeout; otherwise the size,
/// the answer in base64, the header fields, and the answer records read
/// back from that base64.
pub fn dns_result_text(rt: &str, raw: &[u8], timeout_ms: u64) -> (r: String)
    ensures
        raw@.len() < 12 ==> r@ == "{ \"error\":{\"timeout\":"@ + decimal(timeout_ms as nat) + "} }"@,
        raw@.len() >= 12 ==> exists|a: Option<Seq<AnswerRecord>>|
            #![trigger spec_dns_result(rt@, raw@.len() as usize, spec_base64(raw@), spec_header(raw@), a)]
            match spec_base64_decode(spec_base64(raw@)) {
                None => a is None,
                Some(back) => answers_read(back, a),
            } && r@ == spec_dns_result(
                rt@,
                raw@.len() as usize,
                spec_base64(raw@),
                spec_header(raw@),
                a,
            ),
{
    match parse_response(raw) {
        Err(_) => format_dns_timeout(timeout_ms),
        Ok(header) => {
            let abuf = base64_encode(raw);
            let answers = decode_answers(abuf.as_str());
            let ghost a = match &answers {
                Some(v) => Some(v@),
                None => None,
            };
            let r = match &answers {
                Some(v) => format_dns_result(rt, raw.len(), abuf.as_str(), header, Some(v)),
                None => format_dns_result(rt, raw.len(), abuf.as_str(), header, None),
            };
            assert(r@ == spec_dns_result(rt@, raw@.len() as usize, spec_base64(raw@), spec_header(raw@), a));
            r
        },
    }
}

/// The header fields of an answer of at least twelve bytes: id, then the
/// question, answer, authority and additional counts.
pub open spec fn spec_header(raw: Seq<u8>) -> (u16, u16, u16, u16, u16) {
    (be16(raw, 0), be16(raw, 4), be16(raw, 6), be16(raw, 8), be16(raw, 10))
}

/// The header fields sit where RFC 1035 puts them, most significant byte
/// first: the id in bytes 0 and 1, the question count in bytes 4 and 5,
/// the answer count in 6 and 7, the authority count in 8 and 9 and the
/// additional count in 10 and 11.
pub proof fn lemma_header_layout(raw: Seq<u8>)
    requires
        raw.len() >= 12,
    ensures
        spec_header(raw).0 == raw[0] * 256 + raw[1],
        spec_header(raw).1 == raw[4] * 256 + raw[5],
        spec_header(raw).2 == raw[6] * 256 + raw[7],
        spec_header(raw).3 == raw[8] * 256 + raw[9],
        spec_header(raw).4 == raw[10] * 256 + raw[11],
{
}

} // verus!
