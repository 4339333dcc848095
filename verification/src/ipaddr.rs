//! Recognising IP address literals (the syntax `std::net::IpAddr` accepts):
//! dotted-quad IPv4 with canonical octets, and IPv6 with optional `::`
//! compression and an optional trailing embedded IPv4 address.
use crate::text::{all_digits, chars_of, digits_value, is_digit};
use vstd::prelude::*;

verus! {

/// A digit in base 10, or in base 16 when `hex` holds.
pub open spec fn is_radix_digit(c: char, hex: bool) -> bool {
    ||| is_digit(c)
    ||| hex && (('a' <= c && c <= 'f') || ('A' <= c && c <= 'F'))
}

/// Length of the run of digits starting at `p`.
pub open spec fn digit_run(s: Seq<char>, p: int, hex: bool) -> nat
    decreases s.len() - p,
{
    if 0 <= p < s.len() && is_radix_digit(s[p], hex) {
        1 + digit_run(s, p + 1, hex)
    } else {
        0
    }
}

/// Whether `s[p]` exists and is `c`.
pub open spec fn char_at(s: Seq<char>, p: int, c: char) -> bool {
    0 <= p < s.len() && s[p] == c
}

/// End of an IPv4 octet starting at `p`: one to three digits, no leading
/// zero unless the octet is `0`, value at most 255.
pub open spec fn octet_at(s: Seq<char>, p: int) -> Option<int> {
    let n = digit_run(s, p, false);
    if n == 0 || n > 3 || (s[p] == '0' && n > 1) || digits_value(s.subrange(p, p + n)) > 255 {
        None
    } else {
        Some(p + n)
    }
}

/// End of an IPv6 group starting at `p`: one to four hex digits.
pub open spec fn hex_group_at(s: Seq<char>, p: int) -> Option<int> {
    let n = digit_run(s, p, true);
    if n == 0 || n > 4 {
        None
    } else {
        Some(p + n)
    }
}

/// After a read that ended at `q`, a `.` and one more octet.
pub open spec fn dot_octet(s: Seq<char>, q: Option<int>) -> Option<int> {
    match q {
        Some(p) => if char_at(s, p, '.') {
            octet_at(s, p + 1)
        } else {
            None
        },
        None => None,
    }
}

/// End of a dotted-quad IPv4 address starting at `p`.
pub open spec fn v4_at(s: Seq<char>, p: int) -> Option<int> {
    dot_octet(s, dot_octet(s, dot_octet(s, octet_at(s, p))))
}

/// Position after the `:` that precedes group number `i` (none before the
/// first group).
pub open spec fn after_sep(s: Seq<char>, p: int, i: int) -> Option<int> {
    if i == 0 {
        Some(p)
    } else if char_at(s, p, ':') {
        Some(p + 1)
    } else {
        None
    }
}

/// Reads up to `limit` colon-separated IPv6 groups from `p`, group `i`
/// being next; an embedded IPv4 address may stand where two groups are
/// still allowed, and ends the run. Gives the end position, the number of
/// groups read, and whether the run ended with IPv4.
pub open spec fn groups_from(s: Seq<char>, p: int, i: int, limit: int) -> (int, int, bool)
    decreases limit - i,
{
    if i >= limit {
        (p, i, false)
    } else {
        let v4 = if i + 1 < limit {
            match after_sep(s, p, i) {
                Some(q) => v4_at(s, q),
                None => None,
            }
        } else {
            None
        };
        match v4 {
            Some(e) => (e, i + 2, true),
            None => {
                let g = match after_sep(s, p, i) {
                    Some(q) => hex_group_at(s, q),
                    None => None,
                };
                match g {
                    Some(e) => groups_from(s, e, i + 1, limit),
                    None => (p, i, false),
                }
            },
        }
    }
}

/// End of an IPv6 address at the start of `s`.
pub open spec fn v6_end(s: Seq<char>) -> Option<int> {
    let (p1, h, hv4) = groups_from(s, 0, 0, 8);
    if h == 8 {
        Some(p1)
    } else if hv4 {
        None
    } else if char_at(s, p1, ':') && char_at(s, p1 + 1, ':') {
        let (p2, t, tv4) = groups_from(s, p1 + 2, 0, 7 - h);
        Some(p2)
    } else {
        None
    }
}

/// Whether `s` is an IP address literal: IPv4 is tried first, and when it
/// reads a prefix the rest must be empty; otherwise IPv6 must read all.
pub open spec fn spec_is_ip_addr(s: Seq<char>) -> bool {
    match v4_at(s, 0) {
        Some(e) => e == s.len(),
        None => match v6_end(s) {
            Some(e) => e == s.len(),
            None => false,
        },
    }
}

/// A position read by exec code, as an integer.
pub open spec fn opt_int(q: Option<usize>) -> Option<int> {
    match q {
        Some(p) => Some(p as int),
        None => None,
    }
}

fn radix_digit(c: char, hex: bool) -> (r: bool)
    ensures
        r == is_radix_digit(c, hex),
{
    ('0' <= c && c <= '9') || (hex && (('a' <= c && c <= 'f') || ('A' <= c && c <= 'F')))
}

fn run_len(v: &Vec<char>, p: usize, hex: bool) -> (n: usize)
    requires
        p <= v@.len(),
    ensures
        n == digit_run(v@, p as int, hex),
        p + n <= v@.len(),
{
    let mut q = p;
    while q < v.len() && radix_digit(v[q], hex)
        invariant
            p <= q <= v@.len(),
            digit_run(v@, p as int, hex) == (q - p) + digit_run(v@, q as int, hex),
        decreases v.len() - q,
    {
        q = q + 1;
    }
    q - p
}

proof fn lemma_run_digits(s: Seq<char>, p: int, k: int)
    requires
        0 <= p,
        0 <= k < digit_run(s, p, false),
    ensures
        p + k < s.len(),
        is_digit(s[p + k]),
    decreases k,
{
    if k > 0 {
        lemma_run_digits(s, p + 1, k - 1);
    }
}

fn octet(v: &Vec<char>, p: usize) -> (r: Option<usize>)
    requires
        p <= v@.len(),
    ensures
        r matches Some(e) ==> e <= v@.len(),
        opt_int(r) == octet_at(v@, p as int),
{
    let n = run_len(v, p, false);
    if n == 0 || n > 3 || (v[p] == '0' && n > 1) {
        return None;
    }
    let mut val: u32 = 0;
    let mut i: usize = 0;
    let ghost body = v@.subrange(p as int, (p + n) as int);
    proof {
        assert forall|k: int| 0 <= k < n implies is_digit(#[trigger] body[k]) by {
            lemma_run_digits(v@, p as int, k);
        }
    }
    while i < n
        invariant
            1 <= n <= 3,
            p + n <= v@.len(),
            i <= n,
            body == v@.subrange(p as int, (p + n) as int),
            all_digits(body),
            val as nat == digits_value(body.subrange(0, i as int)),
            i == 0 ==> val == 0,
            i <= 1 ==> val < 10,
            i <= 2 ==> val < 100,
            val < 1000,
        decreases n - i,
    {
        assert(p + i < v.len());
        assert(body[i as int] == v@[p + i]);
        assert(body.subrange(0, i as int + 1).drop_last() =~= body.subrange(0, i as int));
        let d = v[p + i] as u32 - '0' as u32;
        val = val * 10 + d;
        i = i + 1;
    }
    assert(body.subrange(0, n as int) =~= body);
    assert(p + n <= v.len());
    if val > 255 {
        None
    } else {
        Some(p + n)
    }
}

fn hex_group(v: &Vec<char>, p: usize) -> (r: Option<usize>)
    requires
        p <= v@.len(),
    ensures
        r matches Some(e) ==> e <= v@.len(),
        opt_int(r) == hex_group_at(v@, p as int),
{
    let n = run_len(v, p, true);
    assert(p + n <= v.len());
    if n == 0 || n > 4 {
        None
    } else {
        Some(p + n)
    }
}

fn at_char(v: &Vec<char>, p: usize, c: char) -> (r: bool)
    ensures
        r == char_at(v@, p as int, c),
        r ==> p < v.len(),
{
    p < v.len() && v[p] == c
}

fn next_octet(v: &Vec<char>, q: Option<usize>) -> (r: Option<usize>)
    requires
        q matches Some(p) ==> p <= v@.len(),
    ensures
        r matches Some(e) ==> e <= v@.len(),
        opt_int(r) == dot_octet(v@, opt_int(q)),
{
    match q {
        Some(p) => if at_char(v, p, '.') {
            octet(v, p + 1)
        } else {
            None
        },
        None => None,
    }
}

fn v4(v: &Vec<char>, p: usize) -> (r: Option<usize>)
    requires
        p <= v@.len(),
    ensures
        r matches Some(e) ==> e <= v@.len(),
        opt_int(r) == v4_at(v@, p as int),
{
    let q1 = octet(v, p);
    let q2 = next_octet(v, q1);
    let q3 = next_octet(v, q2);
    next_octet(v, q3)
}

fn sep(v: &Vec<char>, p: usize, i: usize) -> (r: Option<usize>)
    requires
        p <= v@.len(),
    ensures
        r matches Some(q) ==> q <= v@.len(),
        opt_int(r) == after_sep(v@, p as int, i as int),
{
    if i == 0 {
        Some(p)
    } else if at_char(v, p, ':') {
        Some(p + 1)
    } else {
        None
    }
}

proof fn lemma_octet_bound(s: Seq<char>, p: int)
    requires
        0 <= p <= s.len(),
    ensures
        octet_at(s, p) matches Some(e) ==> p < e <= s.len(),
{
    let n = digit_run(s, p, false);
    if n > 0 {
        lemma_run_digits(s, p, n - 1);
    }
}

proof fn lemma_v4_bound(s: Seq<char>, p: int)
    requires
        0 <= p <= s.len(),
    ensures
        v4_at(s, p) matches Some(e) ==> p < e <= s.len(),
{
    lemma_octet_bound(s, p);
    if let Some(p1) = octet_at(s, p) {
        if char_at(s, p1, '.') {
            lemma_octet_bound(s, p1 + 1);
            if let Some(p2) = octet_at(s, p1 + 1) {
                if char_at(s, p2, '.') {
                    lemma_octet_bound(s, p2 + 1);
                    if let Some(p3) = octet_at(s, p2 + 1) {
                        if char_at(s, p3, '.') {
                            lemma_octet_bound(s, p3 + 1);
                        }
                    }
                }
            }
        }
    }
}

fn groups(v: &Vec<char>, p: usize, limit: usize) -> (r: (usize, usize, bool))
    requires
        p <= v@.len(),
        limit <= 8,
    ensures
        groups_from(v@, p as int, 0, limit as int) == (r.0 as int, r.1 as int, r.2),
        r.0 <= v@.len(),
        r.1 <= limit,
{
    let mut pos = p;
    let mut i: usize = 0;
    while i < limit
        invariant
            limit <= 8,
            i <= limit,
            pos <= v@.len(),
            groups_from(v@, p as int, 0, limit as int) == groups_from(
                v@,
                pos as int,
                i as int,
                limit as int,
            ),
        decreases limit - i,
    {
        if i + 1 < limit {
            if let Some(q) = sep(v, pos, i) {
                proof {
                    lemma_v4_bound(v@, q as int);
                }
                if let Some(e) = v4(v, q) {
                    return (e, i + 2, true);
                }
            }
        }
        let g = match sep(v, pos, i) {
            Some(q) => hex_group(v, q),
            None => None,
        };
        match g {
            Some(e) => {
                pos = e;
                i = i + 1;
            },
            None => {
                return (pos, i, false);
            },
        }
    }
    (pos, i, false)
}

/// Whether `s` is an IP address literal, as `std::net::IpAddr` parses it.
pub fn is_ip_addr(s: &str) -> (r: bool)
    ensures
        r == spec_is_ip_addr(s@),
{
    let v = chars_of(s);
    match v4(&v, 0) {
        Some(e) => e == v.len(),
        None => {
            let (p1, h, hv4) = groups(&v, 0, 8);
            if h == 8 {
                p1 == v.len()
            } else if hv4 {
                false
            } else if at_char(&v, p1, ':') && at_char(&v, p1 + 1, ':') {
                let (p2, _t, _tv4) = groups(&v, p1 + 2, 7 - h);
                p2 == v.len()
            } else {
                false
            }
        },
    }
}

} // verus!
