//! TLS certificate checks: the texts a result shows for the protocol
//! version, the cipher suite and the certificates, and the result line.
use crate::ntp::{hex_text, push_hex};
use crate::text::{
    chars_of, decimal, join_strings, push_decimal, push_signed_decimal, signed_decimal, spec_join,
    string_of_range,
};
use base64::Engine;
use vstd::prelude::*;

verus! {

/// The version text of a TLS protocol version code: `1.0` to `1.3` for
/// 0x0301 to 0x0304; other codes have none.
pub open spec fn spec_tls_version_name(code: u16) -> Option<Seq<char>> {
    if code == 0x0301 {
        Some("1.0"@)
    } else if code == 0x0302 {
        Some("1.1"@)
    } else if code == 0x0303 {
        Some("1.2"@)
    } else if code == 0x0304 {
        Some("1.3"@)
    } else {
        None
    }
}

/// TLS 1.0, 1.1, 1.2 and 1.3 (codes 0x0301 to 0x0304) read `1.0`, `1.1`,
/// `1.2` and `1.3`; every other code has no text, and no two codes share
/// one.
pub proof fn lemma_tls_version_names()
    ensures
        spec_tls_version_name(0x0301) == Some("1.0"@),
        spec_tls_version_name(0x0302) == Some("1.1"@),
        spec_tls_version_name(0x0303) == Some("1.2"@),
        spec_tls_version_name(0x0304) == Some("1.3"@),
        forall|c: u16| (c < 0x0301 || c > 0x0304) ==> #[trigger] spec_tls_version_name(c) is None,
        forall|a: u16, b: u16|
            #[trigger] spec_tls_version_name(a) == #[trigger] spec_tls_version_name(b)
                && spec_tls_version_name(a) is Some ==> a == b,
{
    reveal_strlit("1.0");
    reveal_strlit("1.1");
    reveal_strlit("1.2");
    reveal_strlit("1.3");
    assert("1.0"@[2] == '0');
    assert("1.1"@[2] == '1');
    assert("1.2"@[2] == '2');
    assert("1.3"@[2] == '3');
    assert forall|a: u16, b: u16|
        #[trigger] spec_tls_version_name(a) == #[trigger] spec_tls_version_name(b)
            && spec_tls_version_name(a) is Some implies a == b by {
        assert(spec_tls_version_name(a)->0[2] == spec_tls_version_name(b)->0[2]);
    }
}

/// The version text of a TLS protocol version code.
pub fn tls_version_name(code: u16) -> (r: Option<&'static str>)
    ensures
        match spec_tls_version_name(code) {
            Some(v) => r matches Some(s) && s@ == v,
            None => r is None,
        },
{
    if code == 0x0301 {
        Some("1.0")
    } else if code == 0x0302 {
        Some("1.1")
    } else if code == 0x0303 {
        Some("1.2")
    } else if code == 0x0304 {
        Some("1.3")
    } else {
        None
    }
}

/// A cipher suite as results show it: `0x` and four lower-case hexadecimal
/// digits (`{:#06x}`).
pub fn format_cipher_suite(suite: u16) -> (r: String)
    ensures
        r@ == "0x"@ + hex_text(suite as nat, 4),
{
    let mut s = String::from_str("0x");
    push_hex(&mut s, suite as u64, 4);
    s
}

/// Whether `c` belongs to the standard base64 alphabet or is its padding.
pub open spec fn is_base64_char(c: char) -> bool {
    ('A' <= c && c <= 'Z') || ('a' <= c && c <= 'z') || ('0' <= c && c <= '9') || c == '+' || c
        == '/' || c == '='
}

/// The character of the standard base64 alphabet for the value `v`
/// (0 to 63): `A`-`Z`, `a`-`z`, `0`-`9`, `+`, `/`.
pub open spec fn b64_digit(v: int) -> char {
    if v < 26 {
        (65 + v) as char
    } else if v < 52 {
        (97 + v - 26) as char
    } else if v < 62 {
        (48 + v - 52) as char
    } else if v == 62 {
        '+'
    } else {
        '/'
    }
}

/// The four characters of three bytes: their 24 bits in groups of six.
pub open spec fn b64_quad(a: u8, b: u8, c: u8) -> Seq<char> {
    seq![
        b64_digit(a as int / 4),
        b64_digit((a % 4) * 16 + b / 16),
        b64_digit((b % 16) * 4 + c / 64),
        b64_digit(c as int % 64),
    ]
}

/// The characters of the whole groups of three bytes at the start of `d`.
pub open spec fn b64_groups(d: Seq<u8>) -> Seq<char>
    decreases d.len(),
{
    if d.len() < 3 {
        seq![]
    } else {
        b64_quad(d[0], d[1], d[2]) + b64_groups(d.skip(3))
    }
}

/// The characters of the last one or two bytes, the missing bits zero.
pub open spec fn b64_tail(d: Seq<u8>) -> Seq<char> {
    let t = d.skip(d.len() - d.len() % 3);
    if t.len() == 1 {
        seq![b64_digit(t[0] as int / 4), b64_digit((t[0] % 4) * 16)]
    } else if t.len() == 2 {
        seq![
            b64_digit(t[0] as int / 4),
            b64_digit((t[0] % 4) * 16 + t[1] / 16),
            b64_digit((t[1] % 16) * 4),
        ]
    } else {
        seq![]
    }
}

/// Standard base64 of `data` without padding (RFC 4648).
pub open spec fn spec_base64_no_pad(data: Seq<u8>) -> Seq<char> {
    b64_groups(data) + b64_tail(data)
}

/// Standard base64 of `data` with padding (RFC 4648): `=` fills the last
/// group to four characters.
pub open spec fn spec_base64(data: Seq<u8>) -> Seq<char> {
    spec_base64_no_pad(data) + if data.len() % 3 == 1 {
        seq!['=', '=']
    } else if data.len() % 3 == 2 {
        seq!['=']
    } else {
        seq![]
    }
}

/// Encodes in standard base64 with padding
/// (`base64::engine::general_purpose::STANDARD.encode`); the text holds
/// only the characters of that alphabet.
#[verifier::external_body]
pub(crate) fn base64_encode(data: &[u8]) -> (r: String)
    ensures
        r@ == spec_base64(data@),
        forall|i: int| 0 <= i < r@.len() ==> is_base64_char(#[trigger] r@[i]),
{
    base64::engine::general_purpose::STANDARD.encode(data)
}

/// `s` cut into pieces of `n` characters, the last one shorter when the
/// length is not a multiple of `n`.
pub open spec fn chunks(s: Seq<char>, n: nat) -> Seq<Seq<char>>
    decreases s.len(),
{
    if s.len() == 0 || n == 0 {
        seq![]
    } else if s.len() <= n {
        seq![s]
    } else {
        seq![s.take(n as int)] + chunks(s.skip(n as int), n)
    }
}

fn chunks_exec(s: &str, n: usize) -> (r: Vec<String>)
    requires
        n > 0,
    ensures
        r.deep_view() == chunks(s@, n as nat),
{
    let v = chars_of(s);
    let mut out: Vec<String> = Vec::new();
    let mut i: usize = 0;
    assert(s@.skip(0) =~= s@);
    while i < v.len()
        invariant
            n > 0,
            v@ == s@,
            i <= v@.len(),
            out.deep_view() + chunks(s@.skip(i as int), n as nat) == chunks(s@, n as nat),
        decreases v.len() - i,
    {
        let ghost t = s@.skip(i as int);
        let end = if v.len() - i <= n {
            v.len()
        } else {
            i + n
        };
        let piece = string_of_range(&v, i, end);
        let ghost before = out.deep_view();
        out.push(piece);
        proof {
            assert(out.deep_view() =~= before.push(piece@));
            if v.len() - i <= n {
                assert(piece@ =~= t);
                assert(s@.skip(end as int) =~= Seq::<char>::empty());
                assert(chunks(s@.skip(end as int), n as nat) =~= Seq::<Seq<char>>::empty());
                assert(out.deep_view() + chunks(s@.skip(end as int), n as nat) =~= before + chunks(
                    t,
                    n as nat,
                ));
            } else {
                assert(piece@ =~= t.take(n as int));
                assert(t.skip(n as int) =~= s@.skip(end as int));
                assert(out.deep_view() + chunks(s@.skip(end as int), n as nat) =~= before + chunks(
                    t,
                    n as nat,
                ));
            }
        }
        i = end;
    }
    assert(s@.skip(i as int) =~= Seq::<char>::empty());
    assert(out.deep_view() + Seq::<Seq<char>>::empty() =~= out.deep_view());
    out
}

/// The PEM form of a certificate: its base64 in lines of 64 characters,
/// between the `BEGIN CERTIFICATE` and `END CERTIFICATE` lines.
pub open spec fn spec_der_to_pem(der: Seq<u8>) -> Seq<char> {
    "-----BEGIN CERTIFICATE-----\n"@ + spec_join(chunks(spec_base64(der), 64), "\n"@)
        + "\n-----END CERTIFICATE-----"@
}

/// Converts a DER certificate to PEM.
pub fn der_to_pem(der: &[u8]) -> (r: String)
    ensures
        r@ == spec_der_to_pem(der@),
{
    let b64 = base64_encode(der);
    let lines = chunks_exec(b64.as_str(), 64);
    let body = join_strings(&lines, "\n");
    let mut s = String::from_str("-----BEGIN CERTIFICATE-----\n");
    s.append(body.as_str());
    s.append("\n-----END CERTIFICATE-----");
    s
}

// ---------------------------------------------------------------------
// The result line
// ---------------------------------------------------------------------

/// `s` with each line feed written as the two characters `\n`.
pub open spec fn escape_newlines(s: Seq<char>) -> Seq<char>
    decreases s.len(),
{
    if s.len() == 0 {
        s
    } else if s.last() == '\n' {
        escape_newlines(s.drop_last()) + seq!['\\', 'n']
    } else {
        escape_newlines(s.drop_last()).push(s.last())
    }
}

fn escape_newlines_exec(s: &str) -> (r: String)
    ensures
        r@ == escape_newlines(s@),
{
    let v = chars_of(s);
    let mut out = String::new();
    let mut i: usize = 0;
    while i < v.len()
        invariant
            i <= v@.len(),
            v@ == s@,
            out@ == escape_newlines(v@.take(i as int)),
        decreases v.len() - i,
    {
        assert(v@.take(i + 1).drop_last() =~= v@.take(i as int));
        if v[i] == '\n' {
            crate::text::push_char(&mut out, '\\');
            crate::text::push_char(&mut out, 'n');
            assert(out@ =~= escape_newlines(v@.take(i + 1)));
        } else {
            crate::text::push_char(&mut out, v[i]);
            assert(out@ =~= escape_newlines(v@.take(i + 1)));
        }
        i = i + 1;
    }
    assert(v@.take(v@.len() as int) =~= v@);
    out
}

/// The certificates of a result: each PEM text in double quotes with its
/// line feeds escaped, separated by `, `.
pub open spec fn spec_cert_list(pems: Seq<Seq<char>>) -> Seq<char> {
    spec_join(Seq::new(pems.len(), |i: int| "\""@ + escape_newlines(pems[i]) + "\""@), ", "@)
}

/// Writes the certificates of a result.
pub fn cert_list(pems: &Vec<String>) -> (r: String)
    ensures
        r@ == spec_cert_list(pems.deep_view()),
{
    let ghost pv = pems.deep_view();
    let ghost q = Seq::new(pv.len(), |i: int| "\""@ + escape_newlines(pv[i]) + "\""@);
    let mut out = String::new();
    let mut i: usize = 0;
    while i < pems.len()
        invariant
            i <= pv.len(),
            pv == pems.deep_view(),
            q == Seq::new(pv.len(), |i: int| "\""@ + escape_newlines(pv[i]) + "\""@),
            out@ == spec_join(q.take(i as int), ", "@),
        decreases pems.len() - i,
    {
        assert(pv[i as int] == pems@[i as int]@);
        if i > 0 {
            out.append(", ");
        }
        out.append("\"");
        let e = escape_newlines_exec(pems[i].as_str());
        out.append(e.as_str());
        out.append("\"");
        proof {
            let t = q.take(i as int + 1);
            assert(t.drop_last() =~= q.take(i as int));
            if i == 0 {
                assert(out@ =~= t[0]);
            } else {
                assert(out@ =~= spec_join(t.drop_last(), ", "@) + ", "@ + t.last());
            }
        }
        i = i + 1;
    }
    assert(q.take(pv.len() as int) =~= q);
    out
}

/// What a TLS result line holds. The times (`ttr`, `ttc`, `rt`, in
/// seconds) are given as printed.
#[derive(Debug, Clone)]
pub struct TlsReport {
    pub msm_id: u64,
    pub firmware_version: u32,
    pub time: i64,
    pub hostname: String,
    pub port: u16,
    pub ttr: String,
    pub ver: String,
    pub dst: String,
    pub af: u8,
    pub src: String,
    pub ttc: String,
    pub rt: String,
    pub cipher: String,
    pub certs: Vec<String>,
}

/// The body of a TLS result line.
pub open spec fn spec_tls_body(rep: TlsReport) -> Seq<char> {
    "\"id\":\""@ + decimal(rep.msm_id as nat) + "\", \"fw\":"@ + decimal(rep.firmware_version as nat)
        + ", \"mver\": \"2.6.4\", \"lts\":0, \"time\":"@ + signed_decimal(rep.time as int)
        + ", \"dst_name\":\""@ + rep.hostname@ + "\", \"dst_port\":\""@ + decimal(rep.port as nat)
        + "\", \"ttr\":"@ + rep.ttr@ + ", \"method\":\"TLS\", \"ver\":\""@ + rep.ver@
        + "\", \"dst_addr\":\""@ + rep.dst@ + "\", \"af\": "@ + decimal(rep.af as nat)
        + ", \"src_addr\":\""@ + rep.src@ + "\", \"ttc\":"@ + rep.ttc@ + ", \"rt\":"@ + rep.rt@
        + ", \"server_cipher\":\""@ + rep.cipher@ + "\", \"cert\":[ "@ + spec_cert_list(
        rep.certs.deep_view(),
    ) + " ]"@
}

/// Each field of a TLS result body holds what it is named after: the
/// resolve time follows `ttr` and the version `ver`; the connect time, the
/// response time and the server's cipher follow `ttc`, `rt` and
/// `server_cipher`, and the certificates close the body.
pub proof fn lemma_tls_body_fields(rep: TlsReport)
    ensures
        exists|p: Seq<char>, q: Seq<char>|
            spec_tls_body(rep) == p + "\", \"ttr\":"@ + rep.ttr@ + ", \"method\":\"TLS\", \"ver\":\""@
                + rep.ver@ + q,
        exists|p: Seq<char>|
            spec_tls_body(rep) == p + "\", \"ttc\":"@ + rep.ttc@ + ", \"rt\":"@ + rep.rt@
                + ", \"server_cipher\":\""@ + rep.cipher@ + "\", \"cert\":[ "@ + spec_cert_list(
                rep.certs.deep_view(),
            ) + " ]"@,
{
    let body = spec_tls_body(rep);
    let p1 = "\"id\":\""@ + decimal(rep.msm_id as nat) + "\", \"fw\":"@ + decimal(
        rep.firmware_version as nat,
    ) + ", \"mver\": \"2.6.4\", \"lts\":0, \"time\":"@ + signed_decimal(rep.time as int)
        + ", \"dst_name\":\""@ + rep.hostname@ + "\", \"dst_port\":\""@ + decimal(rep.port as nat);
    let p2 = p1 + "\", \"ttr\":"@ + rep.ttr@ + ", \"method\":\"TLS\", \"ver\":\""@ + rep.ver@;
    let p3 = p2 + "\", \"dst_addr\":\""@ + rep.dst@ + "\", \"af\": "@ + decimal(rep.af as nat)
        + ", \"src_addr\":\""@ + rep.src@;
    assert(body == p3 + "\", \"ttc\":"@ + rep.ttc@ + ", \"rt\":"@ + rep.rt@
        + ", \"server_cipher\":\""@ + rep.cipher@ + "\", \"cert\":[ "@ + spec_cert_list(
        rep.certs.deep_view(),
    ) + " ]"@);
    let rest = body.subrange(p2.len() as int, body.len() as int);
    assert(body == p1 + "\", \"ttr\":"@ + rep.ttr@ + ", \"method\":\"TLS\", \"ver\":\""@ + rep.ver@
        + rest);
}

/// Writes the body of a TLS result line.
pub fn tls_body(rep: &TlsReport) -> (r: String)
    ensures
        r@ == spec_tls_body(*rep),
{
    let mut s = String::from_str("\"id\":\"");
    push_decimal(&mut s, rep.msm_id);
    s.append("\", \"fw\":");
    push_decimal(&mut s, rep.firmware_version as u64);
    s.append(", \"mver\": \"2.6.4\", \"lts\":0, \"time\":");
    push_signed_decimal(&mut s, rep.time);
    s.append(", \"dst_name\":\"");
    s.append(rep.hostname.as_str());
    s.append("\", \"dst_port\":\"");
    push_decimal(&mut s, rep.port as u64);
    s.append("\", \"ttr\":");
    s.append(rep.ttr.as_str());
    s.append(", \"method\":\"TLS\", \"ver\":\"");
    s.append(rep.ver.as_str());
    s.append("\", \"dst_addr\":\"");
    s.append(rep.dst.as_str());
    s.append("\", \"af\": ");
    push_decimal(&mut s, rep.af as u64);
    s.append(", \"src_addr\":\"");
    s.append(rep.src.as_str());
    s.append("\", \"ttc\":");
    s.append(rep.ttc.as_str());
    s.append(", \"rt\":");
    s.append(rep.rt.as_str());
    s.append(", \"server_cipher\":\"");
    s.append(rep.cipher.as_str());
    s.append("\", \"cert\":[ ");
    let c = cert_list(&rep.certs);
    s.append(c.as_str());
    s.append(" ]");
    s
}

} // verus!
