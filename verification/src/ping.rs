//! Ping measurements: the echo requests of a run, which reply answers a
//! request, the per-packet results and their statistics.
use crate::text::{decimal, digit_char, push_char, push_decimal};
use vstd::prelude::*;

verus! {

/// The outcome of one echo request: a reply after `rtt_ns` nanoseconds, or
/// none before the timeout.
#[derive(Debug, Clone, Copy, PartialEq, Eq, Structural)]
pub enum PingReplyOrTimeout {
    Reply { rtt_ns: u64 },
    Timeout,
}

// ---------------------------------------------------------------------
// Per-packet results
// ---------------------------------------------------------------------

/// The last `w` decimal digits of `n`, with leading zeros.
pub open spec fn padded_decimal(n: nat, w: nat) -> Seq<char>
    decreases w,
{
    if w == 0 {
        Seq::empty()
    } else {
        padded_decimal(n / 10, (w - 1) as nat).push(digit_char(n % 10))
    }
}

/// A duration in nanoseconds as milliseconds with six decimals: the whole
/// milliseconds, a point, then the remaining nanoseconds in six digits.
pub open spec fn millis_text(ns: nat) -> Seq<char> {
    decimal(ns / 1_000_000) + "."@ + padded_decimal(ns % 1_000_000, 6)
}

fn push_padded(s: &mut String, n: u64, w: u32)
    ensures
        final(s)@ == old(s)@ + padded_decimal(n as nat, w as nat),
    decreases w,
{
    if w > 0 {
        push_padded(s, n / 10, w - 1);
        let d = n % 10;
        let c: char = if d == 0 {
            '0'
        } else if d == 1 {
            '1'
        } else if d == 2 {
            '2'
        } else if d == 3 {
            '3'
        } else if d == 4 {
            '4'
        } else if d == 5 {
            '5'
        } else if d == 6 {
            '6'
        } else if d == 7 {
            '7'
        } else if d == 8 {
            '8'
        } else {
            '9'
        };
        assert(c == digit_char(d as nat));
        push_char(s, c);
        assert(final(s)@ =~= old(s)@ + padded_decimal(n as nat, w as nat));
    } else {
        assert(final(s)@ =~= old(s)@ + padded_decimal(n as nat, w as nat));
    }
}

/// The JSON object of one result: `{"rtt":<ms>}` with the round-trip time
/// in milliseconds and six decimals, or `{"x":"*"}` for a timeout.
pub open spec fn spec_reply_json(r: PingReplyOrTimeout) -> Seq<char> {
    match r {
        PingReplyOrTimeout::Reply { rtt_ns } => "{\"rtt\":"@ + millis_text(rtt_ns as nat) + "}"@,
        PingReplyOrTimeout::Timeout => "{\"x\":\"*\"}"@,
    }
}

impl PingReplyOrTimeout {
    /// Writes the result as the JSON object that results carry.
    pub fn to_json(&self) -> (r: String)
        ensures
            r@ == spec_reply_json(*self),
    {
        match self {
            PingReplyOrTimeout::Reply { rtt_ns } => {
                let mut s = String::from_str("{\"rtt\":");
                push_decimal(&mut s, *rtt_ns / 1_000_000);
                s.append(".");
                push_padded(&mut s, *rtt_ns % 1_000_000, 6);
                s.append("}");
                s
            },
            PingReplyOrTimeout::Timeout => String::from_str("{\"x\":\"*\"}"),
        }
    }
}

/// The results of a run as a JSON array, the objects separated by commas.
pub open spec fn spec_results_json(rs: Seq<PingReplyOrTimeout>) -> Seq<char> {
    "["@ + crate::text::spec_join(Seq::new(rs.len(), |i: int| spec_reply_json(rs[i])), ","@) + "]"@
}

/// Writes the results of a run as a JSON array.
pub fn results_json(rs: &Vec<PingReplyOrTimeout>) -> (r: String)
    ensures
        r@ == spec_results_json(rs@),
{
    let ghost parts = Seq::new(rs@.len(), |i: int| spec_reply_json(rs@[i]));
    let mut body = String::new();
    let mut i: usize = 0;
    while i < rs.len()
        invariant
            i <= rs@.len(),
            parts == Seq::new(rs@.len(), |i: int| spec_reply_json(rs@[i])),
            body@ == crate::text::spec_join(parts.take(i as int), ","@),
        decreases rs.len() - i,
    {
        let piece = rs[i].to_json();
        if i > 0 {
            body.append(",");
        }
        body.append(piece.as_str());
        proof {
            let t = parts.take(i as int + 1);
            assert(t.drop_last() =~= parts.take(i as int));
            if i == 0 {
                assert(body@ =~= t[0]);
            } else {
                assert(body@ =~= crate::text::spec_join(t.drop_last(), ","@) + ","@ + t.last());
            }
        }
        i = i + 1;
    }
    assert(parts.take(rs@.len() as int) =~= parts);
    let mut out = String::from_str("[");
    out.append(body.as_str());
    out.append("]");
    out
}

// ---------------------------------------------------------------------
// Statistics
// ---------------------------------------------------------------------

/// The round-trip times of the replies among `rs`, in order.
pub open spec fn rtts(rs: Seq<PingReplyOrTimeout>) -> Seq<u64>
    decreases rs.len(),
{
    if rs.len() == 0 {
        Seq::empty()
    } else {
        match rs.last() {
            PingReplyOrTimeout::Reply { rtt_ns } => rtts(rs.drop_last()).push(rtt_ns),
            PingReplyOrTimeout::Timeout => rtts(rs.drop_last()),
        }
    }
}

/// The smallest of a non-empty sequence.
pub open spec fn seq_min(s: Seq<u64>) -> u64
    decreases s.len(),
{
    if s.len() <= 1 {
        s[0]
    } else {
        let m = seq_min(s.drop_last());
        if s.last() < m {
            s.last()
        } else {
            m
        }
    }
}

/// The largest of a non-empty sequence.
pub open spec fn seq_max(s: Seq<u64>) -> u64
    decreases s.len(),
{
    if s.len() <= 1 {
        s[0]
    } else {
        let m = seq_max(s.drop_last());
        if s.last() > m {
            s.last()
        } else {
            m
        }
    }
}

/// The sum of a sequence.
pub open spec fn seq_sum(s: Seq<u64>) -> nat
    decreases s.len(),
{
    if s.len() == 0 {
        0
    } else {
        seq_sum(s.drop_last()) + s.last() as nat
    }
}

proof fn lemma_seq_bounds(s: Seq<u64>)
    requires
        s.len() > 0,
    ensures
        seq_min(s) <= seq_max(s),
        seq_min(s) * s.len() <= seq_sum(s) <= seq_max(s) * s.len(),
    decreases s.len(),
{
    if s.len() == 1 {
        assert(s.drop_last().len() == 0);
        assert(seq_sum(s.drop_last()) == 0);
        assert(s.last() == s[0]);
        assert(seq_sum(s) == s[0]);
    } else {
        let d = s.drop_last();
        lemma_seq_bounds(d);
        let x = s.last();
        let lo = seq_min(s);
        let hi = seq_max(s);
        assert(lo <= seq_min(d) && lo <= x);
        assert(hi >= seq_max(d) && hi >= x);
        assert(seq_sum(s) == seq_sum(d) + x);
        assert(lo * d.len() <= seq_min(d) * d.len()) by (nonlinear_arith)
            requires
                lo <= seq_min(d),
        ;
        assert(seq_max(d) * d.len() <= hi * d.len()) by (nonlinear_arith)
            requires
                seq_max(d) <= hi,
        ;
        assert(lo * d.len() + lo == lo * s.len()) by (nonlinear_arith)
            requires
                d.len() + 1 == s.len(),
        ;
        assert(hi * d.len() + hi == hi * s.len()) by (nonlinear_arith)
            requires
                d.len() + 1 == s.len(),
        ;
    }
}

/// Over the replies of a run, the smallest round-trip time is at most the
/// largest, and the average (the sum over the number of replies) lies
/// between them.
pub proof fn lemma_average_between_min_and_max(rs: Seq<PingReplyOrTimeout>)
    requires
        rtts(rs).len() > 0,
    ensures
        seq_min(rtts(rs)) <= seq_max(rtts(rs)),
        seq_min(rtts(rs)) * rtts(rs).len() <= seq_sum(rtts(rs)),
        seq_sum(rtts(rs)) <= seq_max(rtts(rs)) * rtts(rs).len(),
{
    lemma_seq_bounds(rtts(rs));
}

/// Statistics of a run: requests sent, replies received, and over the
/// replies the smallest and largest round-trip time and their sum (the
/// average is the sum over the replies received). `min_ns` and `max_ns` are
/// `None` when nothing was received.
#[derive(Debug, Clone, Copy, PartialEq, Eq, Structural)]
pub struct PingStats {
    pub sent: u32,
    pub rcvd: u32,
    pub min_ns: Option<u64>,
    pub max_ns: Option<u64>,
    pub sum_ns: u128,
}

/// The statistics of `rs`; the counts are taken modulo 2^32, as a `u32`
/// cast takes them.
pub open spec fn spec_ping_stats(rs: Seq<PingReplyOrTimeout>) -> PingStats {
    let t = rtts(rs);
    PingStats {
        sent: rs.len() as u32,
        rcvd: t.len() as u32,
        min_ns: if t.len() == 0 {
            None
        } else {
            Some(seq_min(t))
        },
        max_ns: if t.len() == 0 {
            None
        } else {
            Some(seq_max(t))
        },
        sum_ns: seq_sum(t) as u128,
    }
}

proof fn lemma_sum_bound(s: Seq<u64>)
    ensures
        seq_sum(s) <= s.len() * 0xffff_ffff_ffff_ffff,
    decreases s.len(),
{
    if s.len() > 0 {
        lemma_sum_bound(s.drop_last());
        assert(seq_sum(s.drop_last()) <= (s.len() - 1) * 0xffff_ffff_ffff_ffff);
        assert((s.len() - 1) * 0xffff_ffff_ffff_ffff + 0xffff_ffff_ffff_ffff == s.len()
            * 0xffff_ffff_ffff_ffff) by (nonlinear_arith);
    }
}

/// The largest of a non-empty sequence is one of its elements, and no
/// element is larger; likewise for the smallest.
proof fn lemma_seq_extremes(s: Seq<u64>)
    requires
        s.len() > 0,
    ensures
        s.contains(seq_max(s)),
        s.contains(seq_min(s)),
        forall|i: int| 0 <= i < s.len() ==> seq_min(s) <= #[trigger] s[i] <= seq_max(s),
    decreases s.len(),
{
    if s.len() == 1 {
        assert(s[0] == s[0]);
        assert(s.contains(s[0]));
    } else {
        let d = s.drop_last();
        lemma_seq_extremes(d);
        assert forall|i: int| 0 <= i < s.len() implies seq_min(s) <= #[trigger] s[i] <= seq_max(s) by {
            if i < d.len() {
                assert(s[i] == d[i]);
            }
        }
        let jx = choose|j: int| 0 <= j < d.len() && d[j] == seq_max(d);
        let jn = choose|j: int| 0 <= j < d.len() && d[j] == seq_min(d);
        assert(s[jx] == d[jx]);
        assert(s[jn] == d[jn]);
        assert(s[s.len() - 1] == s.last());
    }
}

/// A round-trip time is among the times of the replies exactly when some
/// reply of the run took it.
proof fn lemma_rtts_are_replies(rs: Seq<PingReplyOrTimeout>)
    ensures
        forall|t: u64|
            rtts(rs).contains(t) <==> exists|j: int|
                0 <= j < rs.len() && #[trigger] rs[j] == (PingReplyOrTimeout::Reply { rtt_ns: t }),
        rtts(rs).len() > 0 <==> exists|j: int| 0 <= j < rs.len() && #[trigger] rs[j] is Reply,
    decreases rs.len(),
{
    if rs.len() > 0 {
        let d = rs.drop_last();
        lemma_rtts_are_replies(d);
        assert forall|t: u64|
            rtts(rs).contains(t) <==> exists|j: int|
                0 <= j < rs.len() && #[trigger] rs[j] == (PingReplyOrTimeout::Reply { rtt_ns: t }) by {
            if rtts(rs).contains(t) {
                let k = choose|k: int| 0 <= k < rtts(rs).len() && rtts(rs)[k] == t;
                if k < rtts(d).len() {
                    assert(rtts(d)[k] == t);
                    assert(rtts(d).contains(t));
                    let j = choose|j: int|
                        0 <= j < d.len() && #[trigger] d[j] == (PingReplyOrTimeout::Reply { rtt_ns: t });
                    assert(rs[j] == d[j]);
                } else {
                    assert(rs[rs.len() - 1] == rs.last());
                }
            }
            if exists|j: int|
                0 <= j < rs.len() && #[trigger] rs[j] == (PingReplyOrTimeout::Reply { rtt_ns: t }) {
                let j = choose|j: int|
                    0 <= j < rs.len() && #[trigger] rs[j] == (PingReplyOrTimeout::Reply { rtt_ns: t });
                if j < d.len() {
                    assert(d[j] == rs[j]);
                    assert(rtts(d).contains(t));
                    let k = choose|k: int| 0 <= k < rtts(d).len() && rtts(d)[k] == t;
                    assert(rtts(rs)[k] == t);
                } else {
                    assert(rs.last() == (PingReplyOrTimeout::Reply { rtt_ns: t }));
                    assert(rtts(rs)[rtts(rs).len() - 1] == t);
                }
            }
        }
        if exists|j: int| 0 <= j < rs.len() && #[trigger] rs[j] is Reply {
            let j = choose|j: int| 0 <= j < rs.len() && #[trigger] rs[j] is Reply;
            if j < d.len() {
                assert(d[j] == rs[j]);
            }
        }
        if exists|j: int| 0 <= j < d.len() && #[trigger] d[j] is Reply {
            let j = choose|j: int| 0 <= j < d.len() && #[trigger] d[j] is Reply;
            assert(rs[j] == d[j]);
        }
    }
}

/// The extremes of a run's statistics: when some reply came, the largest
/// round-trip time is the time of some reply and no reply took longer, and
/// the smallest is the time of some reply and no reply was faster; when
/// none came, there is neither.
pub proof fn lemma_ping_stats_extremes(rs: Seq<PingReplyOrTimeout>)
    ensures
        (exists|j: int| 0 <= j < rs.len() && #[trigger] rs[j] is Reply) ==> {
            let st = spec_ping_stats(rs);
            &&& st.max_ns matches Some(mx) && exists|j: int|
                0 <= j < rs.len() && #[trigger] rs[j] == (PingReplyOrTimeout::Reply { rtt_ns: mx })
            &&& st.min_ns matches Some(mn) && exists|j: int|
                0 <= j < rs.len() && #[trigger] rs[j] == (PingReplyOrTimeout::Reply { rtt_ns: mn })
            &&& forall|j: int|
                0 <= j < rs.len() && #[trigger] rs[j] is Reply ==> st.min_ns->0 <= rs[j]->rtt_ns
                    <= st.max_ns->0
        },
        !(exists|j: int| 0 <= j < rs.len() && #[trigger] rs[j] is Reply) ==> spec_ping_stats(rs).max_ns
            is None && spec_ping_stats(rs).min_ns is None,
{
    lemma_rtts_are_replies(rs);
    let t = rtts(rs);
    if t.len() > 0 {
        lemma_seq_extremes(t);
        assert(t.contains(seq_max(t)));
        assert(t.contains(seq_min(t)));
        assert forall|j: int| 0 <= j < rs.len() && #[trigger] rs[j] is Reply implies seq_min(t)
            <= rs[j]->rtt_ns <= seq_max(t) by {
            let x = rs[j]->rtt_ns;
            assert(rs[j] == (PingReplyOrTimeout::Reply { rtt_ns: x }));
            assert(t.contains(x));
            let k = choose|k: int| 0 <= k < t.len() && t[k] == x;
            assert(seq_min(t) <= t[k] <= seq_max(t));
        }
    }
}

/// Computes the statistics of a run.
pub fn ping_stats(rs: &Vec<PingReplyOrTimeout>) -> (r: PingStats)
    ensures
        r == spec_ping_stats(rs@),
        (exists|j: int| 0 <= j < rs@.len() && #[trigger] rs@[j] is Reply) ==> {
            &&& r.max_ns matches Some(mx) && exists|j: int|
                0 <= j < rs@.len() && #[trigger] rs@[j] == (PingReplyOrTimeout::Reply { rtt_ns: mx })
            &&& r.min_ns matches Some(mn) && exists|j: int|
                0 <= j < rs@.len() && #[trigger] rs@[j] == (PingReplyOrTimeout::Reply { rtt_ns: mn })
            &&& forall|j: int|
                0 <= j < rs@.len() && #[trigger] rs@[j] is Reply ==> r.min_ns->0 <= rs@[j]->rtt_ns
                    <= r.max_ns->0
        },
{
    proof {
        lemma_ping_stats_extremes(rs@);
    }
    let mut rcvd: usize = 0;
    let mut min_ns: u64 = 0;
    let mut max_ns: u64 = 0;
    let mut sum: u128 = 0;
    let mut i: usize = 0;
    while i < rs.len()
        invariant
            i <= rs@.len(),
            rcvd == rtts(rs@.take(i as int)).len(),
            rcvd <= i,
            sum == seq_sum(rtts(rs@.take(i as int))),
            rcvd > 0 ==> min_ns == seq_min(rtts(rs@.take(i as int))),
            rcvd > 0 ==> max_ns == seq_max(rtts(rs@.take(i as int))),
        decreases rs.len() - i,
    {
        let ghost before = rtts(rs@.take(i as int));
        assert(rs@.take(i as int + 1).drop_last() =~= rs@.take(i as int));
        match rs[i] {
            PingReplyOrTimeout::Reply { rtt_ns } => {
                let ghost after = before.push(rtt_ns);
                assert(after.drop_last() =~= before);
                proof {
                    lemma_sum_bound(after);
                    assert(after.len() <= 0xffff_ffff_ffff_ffff);
                    assert(after.len() * 0xffff_ffff_ffff_ffff <= 0xffff_ffff_ffff_ffff * 0xffff_ffff_ffff_ffff) by (nonlinear_arith)
                        requires
                            after.len() <= 0xffff_ffff_ffff_ffff,
                    ;
                }
                sum = sum + rtt_ns as u128;
                if rcvd == 0 || rtt_ns < min_ns {
                    min_ns = rtt_ns;
                }
                if rcvd == 0 || rtt_ns > max_ns {
                    max_ns = rtt_ns;
                }
                rcvd = rcvd + 1;
            },
            PingReplyOrTimeout::Timeout => {},
        }
        i = i + 1;
    }
    assert(rs@.take(rs@.len() as int) =~= rs@);
    PingStats {
        sent: rs.len() as u32,
        rcvd: rcvd as u32,
        min_ns: if rcvd == 0 {
            None
        } else {
            Some(min_ns)
        },
        max_ns: if rcvd == 0 {
            None
        } else {
            Some(max_ns)
        },
        sum_ns: sum,
    }
}

// ---------------------------------------------------------------------
// A run of echo requests
// ---------------------------------------------------------------------

/// The size of an echo request for a configured packet size, and the size of
/// its payload after the 8-byte ICMP header: sizes below 8 become 64.
pub open spec fn spec_echo_sizes(size: u16) -> (u16, u16) {
    let total: u16 = if size < 8 {
        64
    } else {
        size
    };
    (total, (total - 8) as u16)
}

/// The request size and payload size for `size`.
pub fn echo_sizes(size: u16) -> (r: (u16, u16))
    ensures
        r == spec_echo_sizes(size),
{
    let total: u16 = if size < 8 {
        64
    } else {
        size
    };
    (total, total - 8)
}

/// Whether a received packet, read as an echo reply (`parsed`: identifier
/// and sequence number, `None` when it is no echo reply), answers the request
/// with `identifier` and `sequence`. On a datagram socket the kernel chooses
/// the identifier, so there only the sequence number is compared.
pub open spec fn spec_reply_matches(
    parsed: Option<(u16, u16)>,
    is_dgram: bool,
    identifier: u16,
    sequence: u16,
) -> bool {
    match parsed {
        Some((id, s)) => (is_dgram || id == identifier) && s == sequence,
        None => false,
    }
}

/// Decides whether a received packet answers the current request.
pub fn reply_matches(parsed: Option<(u16, u16)>, is_dgram: bool, identifier: u16, sequence: u16) -> (r: bool)
    ensures
        r == spec_reply_matches(parsed, is_dgram, identifier, sequence),
{
    match parsed {
        Some((id, s)) => (is_dgram || id == identifier) && s == sequence,
        None => false,
    }
}

/// A run of `count` echo requests: the outcomes recorded so far, one per
/// request, in order.
#[derive(Debug, Clone)]
pub struct PingRun {
    pub count: u32,
    pub results: Vec<PingReplyOrTimeout>,
}

impl PingRun {
    /// A run that has sent nothing yet.
    pub fn new(count: u32) -> (r: Self)
        ensures
            r.count == count,
            r.results@ == Seq::<PingReplyOrTimeout>::empty(),
    {
        PingRun { count, results: Vec::new() }
    }

    /// The sequence number of the next request: the number of outcomes
    /// recorded so far (as a 16-bit number), or `None` once every request has
    /// its outcome.
    pub fn next_request(&self) -> (r: Option<u16>)
        ensures
            self.results@.len() < self.count ==> r == Some(self.results@.len() as u16),
            self.results@.len() >= self.count ==> r is None,
    {
        if self.results.len() < self.count as usize {
            Some(self.results.len() as u16)
        } else {
            None
        }
    }

    /// Records the outcome of the current request. Returns whether another
    /// request follows, before which the run pauses for a second.
    pub fn record(&mut self, outcome: PingReplyOrTimeout) -> (more: bool)
        requires
            old(self).results@.len() < old(self).count,
        ensures
            final(self).count == old(self).count,
            final(self).results@ == old(self).results@.push(outcome),
            more == (final(self).results@.len() < final(self).count),
    {
        self.results.push(outcome);
        self.results.len() < self.count as usize
    }
}

/// The time a whole scamper ping may take: the per-packet timeout times the
/// packet count (saturating), and at least one second.
pub fn scamper_total_timeout_ms(timeout_ms: u64, count: u32) -> (r: u64)
    ensures
        r == (if timeout_ms * count > 0xffff_ffff_ffff_ffff {
            0xffff_ffff_ffff_ffffu64
        } else if timeout_ms * count < 1000 {
            1000u64
        } else {
            (timeout_ms * count) as u64
        }),
{
    let t = match timeout_ms.checked_mul(count as u64) {
        Some(t) => t,
        None => 0xffff_ffff_ffff_ffffu64,
    };
    if t < 1000 {
        1000
    } else {
        t
    }
}

/// The outcomes of a scamper ping: a reply for each probe with a
/// round-trip time, a timeout for each without; `None` when scamper reported
/// no probe at all.
pub fn replies_from_rtts(rtts_ns: &Vec<Option<u64>>) -> (r: Option<Vec<PingReplyOrTimeout>>)
    ensures
        rtts_ns@.len() == 0 ==> r is None,
        rtts_ns@.len() > 0 ==> r is Some && r.unwrap()@.len() == rtts_ns@.len() && forall|i: int|
            0 <= i < rtts_ns@.len() ==> #[trigger] r.unwrap()@[i] == match rtts_ns@[i] {
                Some(t) => PingReplyOrTimeout::Reply { rtt_ns: t },
                None => PingReplyOrTimeout::Timeout,
            },
{
    if rtts_ns.len() == 0 {
        return None;
    }
    let mut out: Vec<PingReplyOrTimeout> = Vec::new();
    let mut i: usize = 0;
    while i < rtts_ns.len()
        invariant
            i <= rtts_ns@.len(),
            out@.len() == i,
            forall|k: int|
                0 <= k < i ==> #[trigger] out@[k] == match rtts_ns@[k] {
                    Some(t) => PingReplyOrTimeout::Reply { rtt_ns: t },
                    None => PingReplyOrTimeout::Timeout,
                },
        decreases rtts_ns.len() - i,
    {
        let o = match rtts_ns[i] {
            Some(t) => PingReplyOrTimeout::Reply { rtt_ns: t },
            None => PingReplyOrTimeout::Timeout,
        };
        out.push(o);
        i = i + 1;
    }
    Some(out)
}

} // verus!
