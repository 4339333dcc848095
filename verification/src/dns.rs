//! DNS measurements: the query name templates, the header of an answer,
//! and the result text.
use crate::text::{ascii_lower_exec, chars_of, decimal, push_char, push_decimal, spec_join, str_eq};
use crate::types::unix_seconds;
use rand::RngExt;
use vstd::prelude::*;

verus! {

/// The transport of a DNS query.
#[derive(Debug, Clone, Copy, PartialEq, Eq, Structural)]
pub enum DnsProtocol {
    UDP,
    TCP,
}

impl DnsProtocol {
    /// The protocol's name in results: `UDP` or `TCP`.
    pub fn as_str(&self) -> (r: &'static str)
        ensures
            r@ == (match self {
                DnsProtocol::UDP => "UDP"@,
                DnsProtocol::TCP => "TCP"@,
            }),
    {
        match self {
            DnsProtocol::UDP => "UDP",
            DnsProtocol::TCP => "TCP",
        }
    }
}

// ---------------------------------------------------------------------
// Answer header
// ---------------------------------------------------------------------

/// Why an answer could not be read.
#[derive(Debug, Clone, Copy, PartialEq, Eq, Structural)]
pub enum DnsError {
    /// The answer is shorter than a DNS header; its length.
    TooShort(usize),
}

impl DnsError {
    /// The message of the error.
    pub fn message(&self) -> (r: String)
        ensures
            r@ == (match self {
                DnsError::TooShort(n) => "DNS response too short: "@ + decimal(*n as nat)
                    + " bytes"@,
            }),
    {
        match self {
            DnsError::TooShort(n) => {
                let mut s = String::from_str("DNS response too short: ");
                push_decimal(&mut s, *n as u64);
                s.append(" bytes");
                s
            },
        }
    }
}

/// The big-endian 16-bit number at `i`.
pub open spec fn be16(b: Seq<u8>, i: int) -> u16 {
    (b[i] as int * 256 + b[i + 1] as int) as u16
}

fn be16_at(b: &[u8], i: usize) -> (r: u16)
    requires
        i + 1 < b@.len(),
    ensures
        r == be16(b@, i as int),
{
    (b[i] as u16) * 256 + (b[i + 1] as u16)
}

/// Reads the header of a DNS answer: its id and the counts of questions,
/// answers, authority and additional records. An answer shorter than the
/// twelve header bytes is refused.
pub fn parse_response(raw: &[u8]) -> (r: Result<(u16, u16, u16, u16, u16), DnsError>)
    ensures
        raw@.len() < 12 ==> r == Err::<(u16, u16, u16, u16, u16), DnsError>(
            DnsError::TooShort(raw@.len() as usize),
        ),
        raw@.len() >= 12 ==> r == Ok::<(u16, u16, u16, u16, u16), DnsError>(
            (
                be16(raw@, 0),
                be16(raw@, 4),
                be16(raw@, 6),
                be16(raw@, 8),
                be16(raw@, 10),
            ),
        ),
{
    if raw.len() < 12 {
        return Err(DnsError::TooShort(raw.len()));
    }
    Ok((be16_at(raw, 0), be16_at(raw, 4), be16_at(raw, 6), be16_at(raw, 8), be16_at(raw, 10)))
}

/// One answer record as results show it.
#[derive(Debug, Clone)]
pub struct AnswerRecord {
    pub record_type: String,
    pub name: String,
    pub rdata: Vec<String>,
}

// ---------------------------------------------------------------------
// Query name templates
// ---------------------------------------------------------------------

/// `s` with every `$x` replaced by `rep`, left to right.
pub open spec fn replace_var(s: Seq<char>, x: char, rep: Seq<char>) -> Seq<char>
    decreases s.len(),
{
    if s.len() == 0 {
        seq![]
    } else if s.len() >= 2 && s[0] == '$' && s[1] == x {
        rep + replace_var(s.skip(2), x, rep)
    } else {
        seq![s[0]] + replace_var(s.skip(1), x, rep)
    }
}

fn replace_var_exec(s: &str, x: char, rep: &str) -> (r: String)
    ensures
        r@ == replace_var(s@, x, rep@),
{
    let v = chars_of(s);
    let mut out = String::new();
    let mut i: usize = 0;
    assert(s@.skip(0) =~= s@);
    while i < v.len()
        invariant
            v@ == s@,
            i <= v@.len(),
            out@ + replace_var(s@.skip(i as int), x, rep@) == replace_var(s@, x, rep@),
        decreases v.len() - i,
    {
        let ghost t = s@.skip(i as int);
        if i + 1 < v.len() && v[i] == '$' && v[i + 1] == x {
            assert(t.skip(2) =~= s@.skip(i + 2));
            let ghost before = out@;
            out.append(rep);
            assert(out@ + replace_var(s@.skip(i + 2), x, rep@) =~= before + (rep@ + replace_var(
                t.skip(2),
                x,
                rep@,
            )));
            i = i + 2;
        } else {
            assert(t.skip(1) =~= s@.skip(i + 1));
            let ghost before = out@;
            push_char(&mut out, v[i]);
            assert(out@ + replace_var(s@.skip(i + 1), x, rep@) =~= before + (seq![v@[i as int]]
                + replace_var(t.skip(1), x, rep@)));
            i = i + 1;
        }
    }
    assert(s@.skip(i as int) =~= Seq::<char>::empty());
    assert(out@ + Seq::<char>::empty() =~= out@);
    out
}

/// The pieces ended so far and the piece being read, splitting at `c`.
pub open spec fn split_state(s: Seq<char>, c: char) -> (Seq<Seq<char>>, Seq<char>)
    decreases s.len(),
{
    if s.len() == 0 {
        (seq![], seq![])
    } else {
        let (done, cur) = split_state(s.drop_last(), c);
        if s.last() == c {
            (done.push(cur), seq![])
        } else {
            (done, cur.push(s.last()))
        }
    }
}

/// `str::split` at a character: the pieces between its occurrences, one
/// more than there are occurrences.
pub open spec fn spec_split_char(s: Seq<char>, c: char) -> Seq<Seq<char>> {
    let (done, cur) = split_state(s, c);
    done.push(cur)
}

/// A label with its templates filled in: `$r` by `random`, then `$p` by
/// the probe id, then `$t` by the time.
pub open spec fn fill_label(label: Seq<char>, random: Seq<char>, probe: Seq<char>, time: Seq<char>) -> Seq<
    char,
> {
    replace_var(replace_var(replace_var(label, 'r', random), 'p', probe), 't', time)
}

/// A query name with its templates filled in, label by label: `$r` by a
/// random label (the `i`-th label's from `randoms[i]`), `$p` by the probe
/// id, `$t` by the Unix time. The root name `.` stays as it is.
pub open spec fn spec_expand(q: Seq<char>, probe_id: u32, time: u64, randoms: Seq<Seq<char>>) -> Seq<
    char,
> {
    if q == "."@ {
        q
    } else {
        let labels = spec_split_char(q, '.');
        spec_join(
            Seq::new(
                labels.len(),
                |i: int| fill_label(labels[i], randoms[i], decimal(probe_id as nat), decimal(time as nat)),
            ),
            "."@,
        )
    }
}

fn split_char(s: &str, c: char) -> (r: Vec<String>)
    ensures
        r.deep_view() == spec_split_char(s@, c),
{
    let v = chars_of(s);
    let mut done: Vec<String> = Vec::new();
    let mut cur = String::new();
    let mut i: usize = 0;
    while i < v.len()
        invariant
            v@ == s@,
            i <= v@.len(),
            (done.deep_view(), cur@) == split_state(s@.take(i as int), c),
        decreases v.len() - i,
    {
        assert(s@.take(i as int + 1).drop_last() =~= s@.take(i as int));
        if v[i] == c {
            let ghost before = done.deep_view();
            let piece = cur;
            done.push(piece);
            assert(done.deep_view() =~= before.push(done@[done@.len() - 1]@));
            cur = String::new();
        } else {
            push_char(&mut cur, v[i]);
        }
        i = i + 1;
    }
    assert(s@.take(v@.len() as int) =~= s@);
    let ghost before = done.deep_view();
    done.push(cur);
    assert(done.deep_view() =~= before.push(done@[done@.len() - 1]@));
    done
}

/// Fills in the templates of a query name with the given time and random
/// labels (one per label of the name, used where it holds `$r`).
pub fn expand_query_name(query_name: &str, probe_id: u32, time: u64, randoms: &Vec<String>) -> (r:
    String)
    requires
        query_name@ != "."@ ==> randoms@.len() >= spec_split_char(query_name@, '.').len(),
    ensures
        r@ == spec_expand(query_name@, probe_id, time, randoms.deep_view()),
{
    if str_eq(query_name, ".") {
        return String::from_str(query_name);
    }
    let labels = split_char(query_name, '.');
    let ghost ls = labels.deep_view();
    let ghost rs = randoms.deep_view();
    let probe_text = crate::text::u64_to_string(probe_id as u64);
    let time_text = crate::text::u64_to_string(time);
    let ghost filled = Seq::new(
        ls.len(),
        |i: int| fill_label(ls[i], rs[i], decimal(probe_id as nat), decimal(time as nat)),
    );
    let mut out = String::new();
    let mut i: usize = 0;
    while i < labels.len()
        invariant
            i <= labels@.len(),
            ls == labels.deep_view(),
            rs == randoms.deep_view(),
            ls.len() <= randoms@.len(),
            probe_text@ == decimal(probe_id as nat),
            time_text@ == decimal(time as nat),
            filled == Seq::new(
                ls.len(),
                |i: int| fill_label(ls[i], rs[i], decimal(probe_id as nat), decimal(time as nat)),
            ),
            out@ == spec_join(filled.take(i as int), "."@),
        decreases labels.len() - i,
    {
        assert(ls[i as int] == labels@[i as int]@);
        assert(rs[i as int] == randoms@[i as int]@);
        let a = replace_var_exec(labels[i].as_str(), 'r', randoms[i].as_str());
        let b = replace_var_exec(a.as_str(), 'p', probe_text.as_str());
        let c = replace_var_exec(b.as_str(), 't', time_text.as_str());
        assert(c@ == filled[i as int]);
        let ghost before = out@;
        if i > 0 {
            out.append(".");
        }
        out.append(c.as_str());
        proof {
            let t = filled.take(i as int + 1);
            assert(t.drop_last() =~= filled.take(i as int));
            if i == 0 {
                assert(t.len() == 1);
                assert(before == Seq::<char>::empty());
                assert(out@ =~= t[0]);
            } else {
                assert(out@ =~= spec_join(t.drop_last(), "."@) + "."@ + t.last());
            }
        }
        i = i + 1;
    }
    assert(filled.take(ls.len() as int) =~= filled);
    out
}

/// Whether `c` is a lower-case ASCII letter or a digit.
pub open spec fn is_lower_alnum(c: char) -> bool {
    ('a' <= c && c <= 'z') || ('0' <= c && c <= '9')
}

/// One character of the `rand` crate's `Alphanumeric` distribution, drawn
/// from the thread's generator: an ASCII letter or digit. Which one is
/// chance.
#[verifier::external_body]
fn random_alnum() -> (c: char)
    ensures
        ('a' <= c && c <= 'z') || ('A' <= c && c <= 'Z') || ('0' <= c && c <= '9'),
{
    char::from(rand::rng().sample(rand::distr::Alphanumeric))
}

/// The label that `$r` becomes: eight random alphanumeric characters,
/// lower-cased.
fn random_label() -> (r: String)
    ensures
        r@.len() == 8,
        forall|i: int| 0 <= i < 8 ==> is_lower_alnum(#[trigger] r@[i]),
{
    let mut r = String::new();
    let mut i: usize = 0;
    while i < 8
        invariant
            i <= 8,
            r@.len() == i,
            forall|k: int| 0 <= k < i ==> is_lower_alnum(#[trigger] r@[k]),
        decreases 8 - i,
    {
        let c = ascii_lower_exec(random_alnum());
        push_char(&mut r, c);
        i = i + 1;
    }
    r
}

/// Expands RIPE Atlas DNS query name templates: `$r` becomes a random
/// label (a fresh one in each label of the name), `$p` the probe id, `$t`
/// the current Unix time.
pub fn expand_query_templates(query_name: &str, probe_id: u32) -> (r: String)
    ensures
        exists|time: u64, randoms: Seq<Seq<char>>|
            #![trigger spec_expand(query_name@, probe_id, time, randoms)]
            (forall|i: int|
                0 <= i < randoms.len() ==> (#[trigger] randoms[i]).len() == 8 && forall|j: int|
                    0 <= j < 8 ==> is_lower_alnum(#[trigger] randoms[i][j])) && r@ == spec_expand(
                query_name@,
                probe_id,
                time,
                randoms,
            ),
{
    let time = unix_seconds();
    let n = if str_eq(query_name, ".") {
        0
    } else {
        split_char(query_name, '.').len()
    };
    let mut randoms: Vec<String> = Vec::new();
    let mut i: usize = 0;
    while i < n
        invariant
            i <= n,
            randoms@.len() == i,
            forall|k: int|
                0 <= k < i ==> (#[trigger] randoms@[k])@.len() == 8 && forall|j: int|
                    0 <= j < 8 ==> is_lower_alnum(#[trigger] randoms@[k]@[j]),
        decreases n - i,
    {
        randoms.push(random_label());
        i = i + 1;
    }
    let r = expand_query_name(query_name, probe_id, time, &randoms);
    let ghost rs = randoms.deep_view();
    assert forall|k: int| 0 <= k < rs.len() implies (#[trigger] rs[k]).len() == 8 && forall|j: int|
        0 <= j < 8 ==> is_lower_alnum(#[trigger] rs[k][j]) by {
        assert(rs[k] == randoms@[k]@);
    }
    r
}

// ---------------------------------------------------------------------
// Result text
// ---------------------------------------------------------------------

/// One answer record in a result: its type, name and data, each data item
/// quoted.
pub open spec fn answer_text(a: Seq<char>, name: Seq<char>, rdata: Seq<Seq<char>>) -> Seq<char> {
    "{\"TYPE\":\""@ + a + "\", \"NAME\":\""@ + name + "\", \"RDATA\":[ "@ + spec_join(
        Seq::new(rdata.len(), |i: int| "\""@ + rdata[i] + "\""@),
        ", "@,
    ) + " ]}"@
}

/// The data items of a record, each in double quotes, separated by `, `.
pub open spec fn quoted_list(items: Seq<Seq<char>>) -> Seq<char> {
    spec_join(Seq::new(items.len(), |i: int| "\""@ + items[i] + "\""@), ", "@)
}

fn quoted_list_exec(items: &Vec<String>) -> (r: String)
    ensures
        r@ == quoted_list(items.deep_view()),
{
    let ghost iv = items.deep_view();
    let ghost q = Seq::new(iv.len(), |i: int| "\""@ + iv[i] + "\""@);
    let mut out = String::new();
    let mut i: usize = 0;
    while i < items.len()
        invariant
            i <= items@.len(),
            iv == items.deep_view(),
            q == Seq::new(iv.len(), |i: int| "\""@ + iv[i] + "\""@),
            out@ == spec_join(q.take(i as int), ", "@),
        decreases items.len() - i,
    {
        assert(iv[i as int] == items@[i as int]@);
        let ghost before = out@;
        if i > 0 {
            out.append(", ");
        }
        out.append("\"");
        out.append(items[i].as_str());
        out.append("\"");
        proof {
            let t = q.take(i as int + 1);
            assert(t.drop_last() =~= q.take(i as int));
            if i == 0 {
                assert(out@ =~= t[0]);
            } else {
                assert(out@ =~= spec_join(t.drop_last(), ", "@) + ", "@ + t.last());
            }
        }
        i = i + 1;
    }
    assert(q.take(iv.len() as int) =~= q);
    out
}

/// The answer records of a result, separated by `, `.
pub open spec fn answers_text(answers: Seq<AnswerRecord>) -> Seq<char> {
    spec_join(
        Seq::new(
            answers.len(),
            |i: int| answer_text(answers[i].record_type@, answers[i].name@, answers[i].rdata.deep_view()),
        ),
        ", "@,
    )
}

/// The result of a DNS query that was answered: round-trip time (already
/// printed with three decimals), size, the answer in base64, the header
/// fields, and the answer records when there are any.
pub open spec fn spec_dns_result(
    rt: Seq<char>,
    size: usize,
    abuf: Seq<char>,
    header: (u16, u16, u16, u16, u16),
    answers: Option<Seq<AnswerRecord>>,
) -> Seq<char> {
    "{ \"rt\":"@ + rt + ",\"size\":"@ + decimal(size as nat) + ", \"abuf\":\""@ + abuf
        + "\",\"ID\":"@ + decimal(header.0 as nat) + ", \"ANCOUNT\":"@ + decimal(header.2 as nat)
        + ", \"QDCOUNT\":"@ + decimal(header.1 as nat) + ", \"NSCOUNT\":"@ + decimal(
        header.3 as nat,
    ) + ", \"ARCOUNT\":"@ + decimal(header.4 as nat) + match answers {
        Some(a) => ",\"answers\":[ "@ + answers_text(a) + " ]"@,
        None => ""@,
    } + " }"@
}

/// The result of an answered query names each header count after its
/// field: `ANCOUNT` is the answer count (`header.2`), `QDCOUNT` the question
/// count (`header.1`), `NSCOUNT` the authority count (`header.3`) and
/// `ARCOUNT` the additional count (`header.4`), in that order after the
/// id; the text starts with the round-trip time and ends with ` }`.
pub proof fn lemma_dns_result_counts(
    rt: Seq<char>,
    size: usize,
    abuf: Seq<char>,
    header: (u16, u16, u16, u16, u16),
    answers: Option<Seq<AnswerRecord>>,
)
    ensures
        exists|p: Seq<char>, q: Seq<char>|
            spec_dns_result(rt, size, abuf, header, answers) == p + "\",\"ID\":"@ + decimal(
                header.0 as nat,
            ) + ", \"ANCOUNT\":"@ + decimal(header.2 as nat) + ", \"QDCOUNT\":"@ + decimal(
                header.1 as nat,
            ) + ", \"NSCOUNT\":"@ + decimal(header.3 as nat) + ", \"ARCOUNT\":"@ + decimal(
                header.4 as nat,
            ) + q,
        spec_dns_result(rt, size, abuf, header, answers).take(7 + rt.len() as int) == "{ \"rt\":"@ + rt,
{
    reveal_strlit("{ \"rt\":");
    let p = "{ \"rt\":"@ + rt + ",\"size\":"@ + decimal(size as nat) + ", \"abuf\":\""@ + abuf;
    let q = match answers {
        Some(a) => ",\"answers\":[ "@ + answers_text(a) + " ]"@,
        None => ""@,
    } + " }"@;
    let r = spec_dns_result(rt, size, abuf, header, answers);
    assert(r == p + "\",\"ID\":"@ + decimal(header.0 as nat) + ", \"ANCOUNT\":"@ + decimal(
        header.2 as nat,
    ) + ", \"QDCOUNT\":"@ + decimal(header.1 as nat) + ", \"NSCOUNT\":"@ + decimal(
        header.3 as nat,
    ) + ", \"ARCOUNT\":"@ + decimal(header.4 as nat) + q);
    let head = "{ \"rt\":"@ + rt;
    assert(r.take(7 + rt.len() as int) =~= head);
}

/// Writes the result of an answered DNS query. `header` is what
/// `parse_response` read: id, then the question, answer, authority and
/// additional counts.
pub fn format_dns_result(
    rt: &str,
    size: usize,
    abuf: &str,
    header: (u16, u16, u16, u16, u16),
    answers: Option<&Vec<AnswerRecord>>,
) -> (r: String)
    ensures
        r@ == spec_dns_result(
            rt@,
            size,
            abuf@,
            header,
            match answers {
                Some(a) => Some(a@),
                None => None,
            },
        ),
{
    let mut s = String::from_str("{ \"rt\":");
    s.append(rt);
    s.append(",\"size\":");
    push_decimal(&mut s, size as u64);
    s.append(", \"abuf\":\"");
    s.append(abuf);
    s.append("\",\"ID\":");
    push_decimal(&mut s, header.0 as u64);
    s.append(", \"ANCOUNT\":");
    push_decimal(&mut s, header.2 as u64);
    s.append(", \"QDCOUNT\":");
    push_decimal(&mut s, header.1 as u64);
    s.append(", \"NSCOUNT\":");
    push_decimal(&mut s, header.3 as u64);
    s.append(", \"ARCOUNT\":");
    push_decimal(&mut s, header.4 as u64);
    let ghost base = s@;
    match answers {
        Some(a) => {
            s.append(",\"answers\":[ ");
            let ghost av = a@;
            let ghost texts = Seq::new(
                av.len(),
                |i: int| answer_text(av[i].record_type@, av[i].name@, av[i].rdata.deep_view()),
            );
            let ghost head = s@;
            let mut i: usize = 0;
            while i < a.len()
                invariant
                    i <= a@.len(),
                    av == a@,
                    texts == Seq::new(
                        av.len(),
                        |i: int| answer_text(av[i].record_type@, av[i].name@, av[i].rdata.deep_view()),
                    ),
                    s@ == head + spec_join(texts.take(i as int), ", "@),
                decreases a.len() - i,
            {
                let ghost before = s@;
                if i > 0 {
                    s.append(", ");
                }
                s.append("{\"TYPE\":\"");
                s.append(a[i].record_type.as_str());
                s.append("\", \"NAME\":\"");
                s.append(a[i].name.as_str());
                s.append("\", \"RDATA\":[ ");
                let q = quoted_list_exec(&a[i].rdata);
                s.append(q.as_str());
                s.append(" ]}");
                proof {
                    let t = texts.take(i as int + 1);
                    assert(t.drop_last() =~= texts.take(i as int));
                    assert(texts[i as int] == answer_text(
                        av[i as int].record_type@,
                        av[i as int].name@,
                        av[i as int].rdata.deep_view(),
                    ));
                    if i == 0 {
                        assert(s@ =~= head + t[0]);
                    } else {
                        assert(s@ =~= head + (spec_join(t.drop_last(), ", "@) + ", "@ + t.last()));
                    }
                }
                i = i + 1;
            }
            assert(texts.take(av.len() as int) =~= texts);
            s.append(" ]");
            s.append(" }");
            assert(s@ =~= base + (",\"answers\":[ "@ + answers_text(av) + " ]"@) + " }"@);
        },
        None => {
            s.append(" }");
            proof {
                reveal_strlit("");
            }
            assert(s@ =~= base + ""@ + " }"@);
        },
    }
    s
}

/// The result of a DNS query that timed out or failed:
/// `{ "error":{"timeout":<ms>} }`.
pub fn format_dns_timeout(timeout_ms: u64) -> (r: String)
    ensures
        r@ == "{ \"error\":{\"timeout\":"@ + decimal(timeout_ms as nat) + "} }"@,
{
    let mut s = String::from_str("{ \"error\":{\"timeout\":");
    push_decimal(&mut s, timeout_ms);
    s.append("} }");
    s
}

} // verus!
