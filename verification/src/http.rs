//! HTTP measurements: the configuration, and the sizes and texts a result
//! reports. The request itself goes through the caller's HTTP client.
use crate::text::{concat, spec_utf8_lossy, utf8_lossy};
use crate::types::{MeasurementId, ProbeId};
use vstd::prelude::*;

verus! {

/// An HTTP measurement's configuration.
#[derive(Debug, Clone)]
pub struct HttpConfig {
    pub url: String,
    /// GET, POST, ...
    pub method: String,
    pub headers: Option<Vec<(String, String)>>,
    pub body: Option<String>,
    pub timeout_ms: u64,
    pub verify_ssl: bool,
    /// "1.1" or "2"
    pub version: Option<String>,
}

/// An HTTP measurement.
#[derive(Debug, Clone)]
pub struct Http {
    pub config: HttpConfig,
    pub probe_id: ProbeId,
    pub msm_id: MeasurementId,
}

/// The port a URL without one uses: 443 for `https`, else 80.
pub fn default_port(scheme: &str) -> (r: u16)
    ensures
        r == (if scheme@ == "https"@ {
            443u16
        } else {
            80u16
        }),
{
    if crate::text::str_eq(scheme, "https") {
        443
    } else {
        80
    }
}

/// The size a response's headers take on the wire: each name and value
/// with `: ` between and a line break after.
pub open spec fn spec_header_size(h: Seq<(Seq<u8>, Seq<u8>)>) -> int
    decreases h.len(),
{
    if h.len() == 0 {
        0
    } else {
        spec_header_size(h.drop_last()) + h.last().0.len() + h.last().1.len() + 4
    }
}

/// The response headers as byte sequences.
pub open spec fn header_bytes(h: Seq<(Vec<u8>, Vec<u8>)>) -> Seq<(Seq<u8>, Seq<u8>)> {
    Seq::new(h.len(), |i: int| (h[i].0@, h[i].1@))
}

proof fn lemma_header_size_mono(h: Seq<(Seq<u8>, Seq<u8>)>, i: int)
    requires
        0 <= i <= h.len(),
    ensures
        0 <= spec_header_size(h.take(i)) <= spec_header_size(h),
    decreases h.len() - i,
{
    if i < h.len() {
        lemma_header_size_mono(h, i + 1);
        assert(h.take(i + 1).drop_last() =~= h.take(i));
    } else {
        assert(h.take(i) =~= h);
    }
    lemma_header_size_nonneg(h.take(i));
}

proof fn lemma_header_size_nonneg(h: Seq<(Seq<u8>, Seq<u8>)>)
    ensures
        spec_header_size(h) >= 0,
    decreases h.len(),
{
    if h.len() > 0 {
        lemma_header_size_nonneg(h.drop_last());
    }
}

/// The size of a response's headers.
pub fn header_size(headers: &Vec<(Vec<u8>, Vec<u8>)>) -> (r: usize)
    requires
        spec_header_size(header_bytes(headers@)) <= usize::MAX,
    ensures
        r == spec_header_size(header_bytes(headers@)),
{
    let ghost h = header_bytes(headers@);
    let mut total: usize = 0;
    let mut i: usize = 0;
    while i < headers.len()
        invariant
            i <= headers@.len(),
            h == header_bytes(headers@),
            spec_header_size(h) <= usize::MAX,
            total == spec_header_size(h.take(i as int)),
        decreases headers.len() - i,
    {
        proof {
            lemma_header_size_mono(h, i + 1);
            assert(h.take(i as int + 1).drop_last() =~= h.take(i as int));
        }
        total = total + headers[i].0.len() + headers[i].1.len() + 4;
        i = i + 1;
    }
    assert(h.take(h.len() as int) =~= h);
    total
}

/// The start of a response body kept in the result: up to 512 bytes, read
/// as text; none for an empty body.
pub fn readbuf(body: &[u8]) -> (r: Option<String>)
    ensures
        body@.len() == 0 ==> r is None,
        body@.len() > 0 ==> (r matches Some(s) && s@ == spec_utf8_lossy(
            body@.take(if body@.len() < 512 {
                body@.len() as int
            } else {
                512
            }),
        )),
{
    if body.len() == 0 {
        return None;
    }
    let n = if body.len() < 512 {
        body.len()
    } else {
        512
    };
    let mut head: Vec<u8> = Vec::new();
    let mut i: usize = 0;
    while i < n
        invariant
            i <= n <= body@.len(),
            head@ == body@.take(i as int),
        decreases n - i,
    {
        head.push(body[i]);
        i = i + 1;
        assert(head@ =~= body@.take(i as int));
    }
    Some(utf8_lossy(&head))
}

/// The request headers as a result lists them: `name: value` each; none
/// when no header was sent.
pub fn header_lines(headers: &Vec<(String, String)>) -> (r: Option<Vec<String>>)
    ensures
        headers@.len() == 0 ==> r is None,
        headers@.len() > 0 ==> (r matches Some(v) && v.deep_view() == Seq::new(
            headers@.len(),
            |i: int| headers@[i].0@ + ": "@ + headers@[i].1@,
        )),
{
    if headers.len() == 0 {
        return None;
    }
    let mut v: Vec<String> = Vec::new();
    let mut i: usize = 0;
    while i < headers.len()
        invariant
            i <= headers@.len(),
            v.deep_view() == Seq::new(i as nat, |k: int| headers@[k].0@ + ": "@ + headers@[k].1@),
        decreases headers.len() - i,
    {
        let head = concat(headers[i].0.as_str(), ": ");
        let line = concat(head.as_str(), headers[i].1.as_str());
        let ghost before = v.deep_view();
        v.push(line);
        assert(v.deep_view() =~= Seq::new(
            (i + 1) as nat,
            |k: int| headers@[k].0@ + ": "@ + headers@[k].1@,
        )) by {
            assert(v.deep_view() =~= before.push(v@[i as int]@));
        }
        i = i + 1;
    }
    Some(v)
}

} // verus!
