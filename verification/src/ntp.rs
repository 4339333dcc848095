//! NTP: the client request, the header and timestamps of the server's
//! answer, the run of exchanges, and the result line. The timestamps'
//! arithmetic is in seconds as floating point and stays with the caller.
use crate::keys::{be_value, p256};
use crate::text::{decimal, push_char, push_decimal, push_signed_decimal, signed_decimal, spec_utf8_lossy, utf8_lossy};
use vstd::prelude::*;

verus! {

/// Seconds from the NTP epoch (1900) to the Unix epoch (1970).
pub const NTP_OFFSET: u64 = 2_208_988_800;

/// The NTP seconds field for a Unix time: shifted to the NTP epoch and cut
/// to 32 bits.
pub fn ntp_seconds(unix_secs: u64) -> (r: u32)
    requires
        unix_secs + 2_208_988_800 <= u64::MAX,
    ensures
        r == (unix_secs + 2_208_988_800) % 0x1_0000_0000,
{
    let s = unix_secs + NTP_OFFSET;
    (s % 0x1_0000_0000) as u32
}

/// The NTP fraction field for a number of nanoseconds: `nanos * 2^32 /
/// 10^9`, rounded down.
pub fn ntp_fraction(nanos: u32) -> (r: u32)
    requires
        nanos < 1_000_000_000,
    ensures
        r == (nanos as int * 0x1_0000_0000) / 1_000_000_000,
{
    let wide = (nanos as u64) * 0x1_0000_0000u64;
    let q = wide / 1_000_000_000u64;
    assert(q < 0x1_0000_0000) by (nonlinear_arith)
        requires
            q == wide / 1_000_000_000u64,
            wide == nanos * 0x1_0000_0000,
            nanos < 1_000_000_000,
    ;
    q as u32
}

/// The request a client sends: version 4, mode 3 (client), all fields 0
/// but the transmit timestamp, which holds the time of sending.
pub open spec fn spec_ntp_request(secs: u32, frac: u32) -> Seq<u8> {
    seq![0x23u8] + Seq::new(39, |i: int| 0u8) + seq![
        (secs / 0x100_0000) as u8,
        ((secs / 0x1_0000) % 256) as u8,
        ((secs / 0x100) % 256) as u8,
        (secs % 256) as u8,
        (frac / 0x100_0000) as u8,
        ((frac / 0x1_0000) % 256) as u8,
        ((frac / 0x100) % 256) as u8,
        (frac % 256) as u8,
    ]
}

/// Builds the 48-byte client request.
pub fn ntp_request(secs: u32, frac: u32) -> (r: Vec<u8>)
    ensures
        r@ == spec_ntp_request(secs, frac),
        r@.len() == 48,
{
    let mut p: Vec<u8> = Vec::new();
    p.push(0x23u8);
    let mut i: usize = 0;
    while i < 39
        invariant
            i <= 39,
            p@ == seq![0x23u8] + Seq::new(i as nat, |k: int| 0u8),
        decreases 39 - i,
    {
        p.push(0u8);
        i = i + 1;
        assert(p@ =~= seq![0x23u8] + Seq::new(i as nat, |k: int| 0u8));
    }
    p.push((secs / 0x100_0000) as u8);
    p.push(((secs / 0x1_0000) % 256) as u8);
    p.push(((secs / 0x100) % 256) as u8);
    p.push((secs % 256) as u8);
    p.push((frac / 0x100_0000) as u8);
    p.push(((frac / 0x1_0000) % 256) as u8);
    p.push(((frac / 0x100) % 256) as u8);
    p.push((frac % 256) as u8);
    assert(p@ =~= spec_ntp_request(secs, frac));
    p
}

/// The header of a server's answer.
#[derive(Debug, Clone, Copy, PartialEq, Eq, Structural)]
pub struct NtpHeader {
    /// Leap indicator (2 bits)
    pub leap: u8,
    /// Version (3 bits)
    pub version: u8,
    /// Mode (3 bits)
    pub mode: u8,
    pub stratum: u8,
    pub poll: u8,
    pub precision: i8,
    /// Root delay, 16.16 fixed point
    pub root_delay: u32,
    /// Root dispersion, 16.16 fixed point
    pub root_dispersion: u32,
    /// Reference id
    pub ref_id: u32,
    /// Reference timestamp, 32.32 fixed point
    pub ref_ts: u64,
}

/// The header that the 48 bytes of an answer hold.
pub open spec fn spec_ntp_header(b: Seq<u8>) -> NtpHeader {
    NtpHeader {
        leap: b[0] / 64,
        version: (b[0] / 8) % 8,
        mode: b[0] % 8,
        stratum: b[1],
        poll: b[2],
        precision: (if b[3] < 128 {
            b[3] as int
        } else {
            b[3] as int - 256
        }) as i8,
        root_delay: be_value(b.subrange(4, 8)) as u32,
        root_dispersion: be_value(b.subrange(8, 12)) as u32,
        ref_id: be_value(b.subrange(12, 16)) as u32,
        ref_ts: be_value(b.subrange(16, 24)) as u64,
    }
}

fn be_bytes(b: &[u8], lo: usize, n: usize) -> (r: u64)
    requires
        n <= 8,
        lo + n <= b@.len(),
    ensures
        r == be_value(b@.subrange(lo as int, lo + n)),
{
    let mut v: u64 = 0;
    let mut i: usize = 0;
    while i < n
        invariant
            i <= n <= 8,
            lo + n <= b@.len(),
            v == be_value(b@.subrange(lo as int, lo + i)),
            v < p256(i as nat),
        decreases n - i,
    {
        proof {
            lemma_be_value_snoc(b@.subrange(lo as int, lo + i), b@[lo + i]);
            assert(b@.subrange(lo as int, lo + i + 1) =~= b@.subrange(lo as int, lo + i).push(
                b@[lo + i],
            ));
            lemma_p256_small(i as nat);
            assert(v * 256 + b@[lo + i] < p256((i + 1) as nat)) by (nonlinear_arith)
                requires
                    v < p256(i as nat),
                    b@[lo + i] < 256,
                    p256((i + 1) as nat) == 256 * p256(i as nat),
            ;
            lemma_p256_small((i + 1) as nat);
        }
        assert(lo + i < b.len());
        v = v * 256 + (b[lo + i] as u64);
        i = i + 1;
    }
    v
}

proof fn lemma_p256_small(n: nat)
    requires
        n <= 8,
    ensures
        p256(n) <= 0x1_0000_0000_0000_0000,
        n < 8 ==> p256(n) <= 0x100_0000_0000_0000,
        p256(n + 1) == 256 * p256(n),
    decreases n,
{
    reveal_with_fuel(p256, 10);
}

/// Appending a byte: the value shifts one byte up.
proof fn lemma_be_value_snoc(b: Seq<u8>, x: u8)
    ensures
        be_value(b.push(x)) == be_value(b) * 256 + x,
    decreases b.len(),
{
    reveal_with_fuel(p256, 2);
    if b.len() > 0 {
        lemma_be_value_snoc(b.drop_first(), x);
        assert(b.push(x).drop_first() =~= b.drop_first().push(x));
        assert(b.push(x)[0] == b[0]);
        let n = (b.len() - 1) as nat;
        assert(p256(n + 1) == 256 * p256(n));
        let b0 = b[0] as int;
        let pn = p256(n) as int;
        let r = be_value(b.drop_first()) as int;
        assert(b0 * (256 * pn) + (r * 256 + x) == (b0 * pn + r) * 256 + x) by (nonlinear_arith);
        assert(be_value(b.push(x)) == b0 * p256(n + 1) + be_value(b.drop_first().push(x)));
        assert(be_value(b) == b0 * pn + r);
        assert(be_value(b.drop_first().push(x)) == r * 256 + x);
        assert(p256(n + 1) == 256 * pn);
        assert(be_value(b.push(x)) == be_value(b) * 256 + x);
    } else {
        assert(b.push(x).drop_first() =~= Seq::<u8>::empty());
        assert(b.push(x)[0] == x);
        assert(be_value(b.push(x).drop_first()) == 0);
        assert(p256(0) == 1);
        assert(b.push(x).len() == 1);
        let xi = x as int;
        let p0 = p256(0) as int;
        assert(xi * p0 == xi) by (nonlinear_arith)
            requires
                p0 == 1,
        ;
        assert(be_value(b.push(x)) == x);
    }
}

/// Four bytes, most significant first, as a number.
proof fn lemma_be_value_four(s: Seq<u8>)
    requires
        s.len() == 4,
    ensures
        be_value(s) == s[0] * 16777216 + s[1] * 65536 + s[2] * 256 + s[3],
        be_value(s) < 0x1_0000_0000,
{
    reveal_with_fuel(p256, 4);
    let s1 = s.drop_first();
    let s2 = s1.drop_first();
    let s3 = s2.drop_first();
    let s4 = s3.drop_first();
    assert(be_value(s4) == 0);
    assert(be_value(s3) == s[3]);
    assert(be_value(s2) == s[2] * 256 + s[3]);
    assert(be_value(s1) == s[1] * 65536 + s[2] * 256 + s[3]);
    assert(be_value(s) == s[0] * 16777216 + s[1] * 65536 + s[2] * 256 + s[3]);
}

/// Eight bytes, most significant first, as a number: the first four make
/// the high 32 bits and the last four the low 32 bits.
proof fn lemma_be_value_eight(s: Seq<u8>)
    requires
        s.len() == 8,
    ensures
        be_value(s) == be_value(s.subrange(0, 4)) * 0x1_0000_0000 + be_value(s.subrange(4, 8)),
{
    reveal_with_fuel(p256, 8);
    assert(p256(4) == 0x1_0000_0000);
    assert(p256(5) == 0x100_0000_0000);
    assert(p256(6) == 0x1_0000_0000_0000);
    assert(p256(7) == 0x100_0000_0000_0000);
    let s1 = s.drop_first();
    let s2 = s1.drop_first();
    let s3 = s2.drop_first();
    let s4 = s3.drop_first();
    assert(s4 =~= s.subrange(4, 8));
    let h = s.subrange(0, 4);
    lemma_be_value_four(h);
    assert(h[0] == s[0] && h[1] == s[1] && h[2] == s[2] && h[3] == s[3]);
    assert(be_value(s3) == s[3] * p256(4) + be_value(s4));
    assert(be_value(s2) == s[2] * p256(5) + be_value(s3));
    assert(be_value(s1) == s[1] * p256(6) + be_value(s2));
    assert(be_value(s) == s[0] * p256(7) + be_value(s1));
}

/// The header's 32-bit fields sit where RFC 5905 puts them, most
/// significant byte first: the root delay in bytes 4 to 7, the root
/// dispersion in bytes 8 to 11, the reference id in bytes 12 to 15 and
/// the reference timestamp in bytes 16 to 23; each is read from its own
/// bytes alone.
pub proof fn lemma_ntp_header_fields(b: Seq<u8>)
    requires
        b.len() >= 48,
    ensures
        spec_ntp_header(b).root_delay == b[4] * 16777216 + b[5] * 65536 + b[6] * 256 + b[7],
        spec_ntp_header(b).root_dispersion == b[8] * 16777216 + b[9] * 65536 + b[10] * 256
            + b[11],
        spec_ntp_header(b).ref_id == b[12] * 16777216 + b[13] * 65536 + b[14] * 256 + b[15],
        spec_ntp_header(b).ref_ts == (b[16] * 16777216 + b[17] * 65536 + b[18] * 256 + b[19])
            * 0x1_0000_0000 + b[20] * 16777216 + b[21] * 65536 + b[22] * 256 + b[23],
        spec_ntp_header(b).stratum == b[1],
        spec_ntp_header(b).poll == b[2],
{
    lemma_be_value_four(b.subrange(4, 8));
    lemma_be_value_four(b.subrange(8, 12));
    lemma_be_value_four(b.subrange(12, 16));
    let t = b.subrange(16, 24);
    lemma_be_value_eight(t);
    lemma_be_value_four(t.subrange(0, 4));
    lemma_be_value_four(t.subrange(4, 8));
    assert(t.subrange(0, 4) =~= b.subrange(16, 20));
    assert(t.subrange(4, 8) =~= b.subrange(20, 24));
}

/// Reads the header of a server's answer; `None` when the answer is
/// shorter than 48 bytes.
pub fn parse_ntp_header(buf: &[u8]) -> (r: Option<NtpHeader>)
    ensures
        buf@.len() < 48 ==> r is None,
        buf@.len() >= 48 ==> r == Some(spec_ntp_header(buf@)),
        r matches Some(h) ==> h.root_delay == buf@[4] * 16777216 + buf@[5] * 65536 + buf@[6] * 256
            + buf@[7],
        r matches Some(h) ==> h.root_dispersion == buf@[8] * 16777216 + buf@[9] * 65536 + buf@[10]
            * 256 + buf@[11],
{
    if buf.len() < 48 {
        return None;
    }
    proof {
        lemma_ntp_header_fields(buf@);
    }
    let h = buf[0];
    let p = buf[3];
    let precision: i8 = if p < 128 {
        p as i8
    } else {
        ((p as i16) - 256) as i8
    };
    Some(
        NtpHeader {
            leap: h / 64,
            version: (h / 8) % 8,
            mode: h % 8,
            stratum: buf[1],
            poll: buf[2],
            precision,
            root_delay: be_bytes(buf, 4, 4) as u32,
            root_dispersion: be_bytes(buf, 8, 4) as u32,
            ref_id: be_bytes(buf, 12, 4) as u32,
            ref_ts: be_bytes(buf, 16, 8),
        },
    )
}

/// The leap indicator as results show it.
pub open spec fn spec_leap_text(li: u8) -> Seq<char> {
    if li == 0 {
        "no"@
    } else if li == 1 {
        "61"@
    } else if li == 2 {
        "59"@
    } else {
        "unknown"@
    }
}

/// The leap indicator as results show it: `no`, `61`, `59`, `unknown`.
pub fn leap_text(li: u8) -> (r: &'static str)
    ensures
        r@ == spec_leap_text(li),
{
    if li == 0 {
        "no"
    } else if li == 1 {
        "61"
    } else if li == 2 {
        "59"
    } else {
        "unknown"
    }
}

/// The mode as results show it.
pub open spec fn spec_mode_text(mode: u8) -> Seq<char> {
    if mode == 1 {
        "symmetric_active"@
    } else if mode == 2 {
        "symmetric_passive"@
    } else if mode == 3 {
        "client"@
    } else if mode == 4 {
        "server"@
    } else if mode == 5 {
        "broadcast"@
    } else {
        "unknown"@
    }
}

/// The mode as results show it.
pub fn mode_text(mode: u8) -> (r: &'static str)
    ensures
        r@ == spec_mode_text(mode),
{
    if mode == 1 {
        "symmetric_active"
    } else if mode == 2 {
        "symmetric_passive"
    } else if mode == 3 {
        "client"
    } else if mode == 4 {
        "server"
    } else if mode == 5 {
        "broadcast"
    } else {
        "unknown"
    }
}

/// The leap indicators 0, 1 and 2 read `no`, `61` and `59` and every other
/// value `unknown`; the modes 1 to 5 read `symmetric_active`,
/// `symmetric_passive`, `client`, `server` and `broadcast` and every other
/// value `unknown`. Two values that read alike are equal or both unknown.
pub proof fn lemma_leap_and_mode_texts()
    ensures
        spec_leap_text(0) == "no"@,
        spec_leap_text(1) == "61"@,
        spec_leap_text(2) == "59"@,
        forall|li: u8| li >= 3 ==> #[trigger] spec_leap_text(li) == "unknown"@,
        forall|x: u8, y: u8|
            #[trigger] spec_leap_text(x) == #[trigger] spec_leap_text(y) ==> x == y || (x >= 3 && y
                >= 3),
        spec_mode_text(1) == "symmetric_active"@,
        spec_mode_text(2) == "symmetric_passive"@,
        spec_mode_text(3) == "client"@,
        spec_mode_text(4) == "server"@,
        spec_mode_text(5) == "broadcast"@,
        forall|m: u8| (m == 0 || m > 5) ==> #[trigger] spec_mode_text(m) == "unknown"@,
        forall|x: u8, y: u8|
            #[trigger] spec_mode_text(x) == #[trigger] spec_mode_text(y) ==> x == y || ((x == 0
                || x > 5) && (y == 0 || y > 5)),
{
    reveal_strlit("no");
    reveal_strlit("61");
    reveal_strlit("59");
    reveal_strlit("unknown");
    reveal_strlit("symmetric_active");
    reveal_strlit("symmetric_passive");
    reveal_strlit("client");
    reveal_strlit("server");
    reveal_strlit("broadcast");
    assert("no"@[0] == 'n');
    assert("61"@[0] == '6');
    assert("59"@[0] == '5');
    assert("unknown"@[0] == 'u');
    assert("symmetric_active"@.len() == 16);
    assert("symmetric_passive"@.len() == 17);
    assert("client"@[0] == 'c');
    assert("server"@[0] == 's');
    assert("server"@.len() == 6);
    assert("broadcast"@[0] == 'b');
    assert("symmetric_active"@[0] == 's');
    assert("symmetric_passive"@[0] == 's');
    assert forall|x: u8, y: u8|
        #[trigger] spec_leap_text(x) == #[trigger] spec_leap_text(y) implies x == y || (x >= 3
            && y >= 3) by {
        assert(spec_leap_text(x)[0] == spec_leap_text(y)[0]);
    }
    assert forall|x: u8, y: u8|
        #[trigger] spec_mode_text(x) == #[trigger] spec_mode_text(y) implies x == y || ((x == 0
            || x > 5) && (y == 0 || y > 5)) by {
        assert(spec_mode_text(x)[0] == spec_mode_text(y)[0]);
        assert(spec_mode_text(x).len() == spec_mode_text(y).len());
    }
}

/// The lower-case hexadecimal digit of `d`.
pub open spec fn hex_digit(d: int) -> char {
    if d < 10 {
        (d + 48) as char
    } else {
        (d + 87) as char
    }
}

/// `n` in `width` lower-case hexadecimal digits, most significant first.
pub open spec fn hex_text(n: nat, width: nat) -> Seq<char>
    decreases width,
{
    if width == 0 {
        seq![]
    } else {
        hex_text(n / 16, (width - 1) as nat).push(hex_digit((n % 16) as int))
    }
}

fn hex_digit_exec(d: u64) -> (c: char)
    requires
        d < 16,
    ensures
        c == hex_digit(d as int),
{
    let table: [char; 16] = [
        '0', '1', '2', '3', '4', '5', '6', '7', '8', '9', 'a', 'b', 'c', 'd', 'e', 'f',
    ];
    let c = table[d as usize];
    assert(c == hex_digit(d as int)) by {
        assert(table@ =~= seq![
            '0', '1', '2', '3', '4', '5', '6', '7', '8', '9', 'a', 'b', 'c', 'd', 'e', 'f',
        ]);
    }
    c
}

/// Appends `n` in `width` lower-case hexadecimal digits.
pub fn push_hex(s: &mut String, n: u64, width: u32)
    ensures
        final(s)@ == old(s)@ + hex_text(n as nat, width as nat),
    decreases width,
{
    if width == 0 {
        assert(final(s)@ =~= old(s)@ + hex_text(n as nat, 0));
        return;
    }
    push_hex(s, n / 16, width - 1);
    let c = hex_digit_exec(n % 16);
    push_char(s, c);
    assert(final(s)@ =~= old(s)@ + hex_text(n as nat, width as nat));
}

/// The reference id as results show it: for stratum 0 and 1 its four
/// bytes as text (trailing NULs dropped), else eight hexadecimal digits.
pub open spec fn spec_reference_id_text(stratum: u8, ref_id: u32) -> Seq<char> {
    if stratum <= 1 {
        trim_nul_end(spec_utf8_lossy(ref_id_bytes(ref_id)))
    } else {
        hex_text(ref_id as nat, 8)
    }
}

/// `s` without its trailing NUL characters.
pub open spec fn trim_nul_end(s: Seq<char>) -> Seq<char>
    decreases s.len(),
{
    if s.len() > 0 && s.last() == '\0' {
        trim_nul_end(s.drop_last())
    } else {
        s
    }
}

/// The four bytes of a reference id, most significant first.
pub open spec fn ref_id_bytes(ref_id: u32) -> Seq<u8> {
    seq![
        (ref_id / 0x100_0000) as u8,
        ((ref_id / 0x1_0000) % 256) as u8,
        ((ref_id / 0x100) % 256) as u8,
        (ref_id % 256) as u8,
    ]
}

fn ref_id_bytes_exec(ref_id: u32) -> (r: Vec<u8>)
    ensures
        r@ == ref_id_bytes(ref_id),
{
    let mut b: Vec<u8> = Vec::new();
    b.push((ref_id / 0x100_0000) as u8);
    b.push(((ref_id / 0x1_0000) % 256) as u8);
    b.push(((ref_id / 0x100) % 256) as u8);
    b.push((ref_id % 256) as u8);
    assert(b@ =~= ref_id_bytes(ref_id));
    b
}

fn trim_nul_end_exec(text: &str) -> (r: String)
    ensures
        r@ == trim_nul_end(text@),
{
    let v = crate::text::chars_of(text);
    let mut n = v.len();
    assert(v@.take(n as int) =~= v@);
    while n > 0 && v[n - 1] == '\0'
        invariant
            n <= v@.len(),
            trim_nul_end(v@) == trim_nul_end(v@.take(n as int)),
        decreases n,
    {
        assert(v@.take(n as int).drop_last() =~= v@.take(n - 1));
        n = n - 1;
    }
    let r = crate::text::string_of_range(&v, 0, n);
    assert(v@.subrange(0, n as int) =~= v@.take(n as int));
    r
}

/// Writes the reference id as results show it.
pub fn reference_id_text(stratum: u8, ref_id: u32) -> (r: String)
    ensures
        r@ == spec_reference_id_text(stratum, ref_id),
{
    if stratum <= 1 {
        let b = ref_id_bytes_exec(ref_id);
        let text = utf8_lossy(&b);
        trim_nul_end_exec(text.as_str())
    } else {
        let mut s = String::new();
        push_hex(&mut s, ref_id as u64, 8);
        assert(s@ =~= hex_text(ref_id as nat, 8));
        s
    }
}

/// The server's receive and transmit timestamps in an answer (32.32 fixed
/// point, at bytes 32 and 40); `None` when the answer is shorter than 48
/// bytes.
pub fn sample_timestamps(buf: &[u8]) -> (r: Option<(u64, u64)>)
    ensures
        buf@.len() < 48 ==> r is None,
        buf@.len() >= 48 ==> r == Some(
            (
                be_value(buf@.subrange(32, 40)) as u64,
                be_value(buf@.subrange(40, 48)) as u64,
            ),
        ),
{
    if buf.len() < 48 {
        return None;
    }
    Some((be_bytes(buf, 32, 8), be_bytes(buf, 40, 8)))
}

// ---------------------------------------------------------------------
// A run of exchanges
// ---------------------------------------------------------------------

/// What a run of exchanges does next.
#[derive(Debug, Clone, Copy, PartialEq, Eq, Structural)]
pub enum NtpNext {
    /// Make one more exchange.
    Query,
    /// Stop and report the samples taken.
    Finish,
    /// Stop and report the error of the exchange that just failed.
    Fail,
}

/// A run of up to `wanted` exchanges with one server, and how many gave a
/// sample. The header reported is that of the first answer.
#[derive(Debug, Clone, Copy, PartialEq, Eq, Structural)]
pub struct NtpRun {
    pub wanted: u32,
    pub taken: u32,
}

impl NtpRun {
    /// A run that has made no exchange.
    pub fn new(wanted: u32) -> (r: Self)
        ensures
            r.wanted == wanted,
            r.taken == 0,
    {
        NtpRun { wanted, taken: 0 }
    }

    /// The first step: an exchange, unless no sample is wanted.
    pub fn first(&self) -> (r: NtpNext)
        ensures
            r == (if self.taken < self.wanted {
                NtpNext::Query
            } else {
                NtpNext::Finish
            }),
    {
        if self.taken < self.wanted {
            NtpNext::Query
        } else {
            NtpNext::Finish
        }
    }

    /// Whether the answer that just came is the one whose header the result
    /// reports: the first.
    pub fn keeps_header(&self) -> (r: bool)
        ensures
            r == (self.taken == 0),
    {
        self.taken == 0
    }

    /// An exchange gave a sample: another follows while fewer than wanted
    /// were taken.
    pub fn on_sample(&mut self) -> (r: NtpNext)
        requires
            old(self).taken < old(self).wanted,
        ensures
            final(self).wanted == old(self).wanted,
            final(self).taken == old(self).taken + 1,
            r == (if final(self).taken < final(self).wanted {
                NtpNext::Query
            } else {
                NtpNext::Finish
            }),
    {
        self.taken = self.taken + 1;
        if self.taken < self.wanted {
            NtpNext::Query
        } else {
            NtpNext::Finish
        }
    }

    /// An exchange failed: the run fails when it has no sample yet, and else
    /// ends with the samples it has.
    pub fn on_error(&self) -> (r: NtpNext)
        ensures
            r == (if self.taken == 0 {
                NtpNext::Fail
            } else {
                NtpNext::Finish
            }),
    {
        if self.taken == 0 {
            NtpNext::Fail
        } else {
            NtpNext::Finish
        }
    }
}

// ---------------------------------------------------------------------
// The result line
// ---------------------------------------------------------------------

/// What an NTP result line holds. The header fields come from the first
/// answer; the quantities in seconds (precision, root delay and dispersion,
/// reference time, the samples) are given as printed.
#[derive(Debug, Clone)]
pub struct NtpReport {
    pub msm_id: u64,
    pub firmware_version: u32,
    pub time: i64,
    pub dst: String,
    pub src: String,
    pub af: u8,
    pub header: NtpHeader,
    pub precision: String,
    pub root_delay: String,
    pub root_dispersion: String,
    pub ref_ts: String,
    pub samples: String,
}

/// The body of an NTP result line.
pub open spec fn spec_ntp_body(rep: NtpReport) -> Seq<char> {
    "\"id\":\""@ + decimal(rep.msm_id as nat) + "\", \"fw\":"@ + decimal(rep.firmware_version as nat)
        + ", \"mver\": \"2.6.4\", \"lts\":0, \"time\":"@ + signed_decimal(rep.time as int)
        + ", \"dst_addr\":\""@ + rep.dst@ + "\", \"src_addr\":\""@ + rep.src@
        + "\", \"proto\":\"UDP\", \"af\": "@ + decimal(rep.af as nat) + ", \"li\":\""@
        + spec_leap_text(rep.header.leap) + "\", \"version\":"@ + decimal(rep.header.version as nat)
        + ", \"mode\":\""@ + spec_mode_text(rep.header.mode) + "\", \"stratum\":"@ + decimal(
        rep.header.stratum as nat,
    ) + ", \"poll\":"@ + decimal(rep.header.poll as nat) + ", \"precision\":"@ + rep.precision@
        + ", \"root-delay\":"@ + rep.root_delay@ + ", \"root-dispersion\":"@ + rep.root_dispersion@
        + ", \"ref-id\":\""@ + spec_reference_id_text(rep.header.stratum, rep.header.ref_id)
        + "\", \"ref-ts\":"@ + rep.ref_ts@ + ", \"result\": [ "@ + rep.samples@ + " ]"@
}

/// Each field of an NTP result body holds what it is named after: the
/// addresses follow `dst_addr` and `src_addr`; the leap indicator, version
/// and mode in words follow `li`, `version` and `mode`; then come the
/// stratum, poll, precision, root delay, root dispersion, reference id and
/// reference timestamp, each after its own name.
pub proof fn lemma_ntp_body_fields(rep: NtpReport)
    ensures
        exists|p: Seq<char>, q: Seq<char>|
            spec_ntp_body(rep) == p + ", \"dst_addr\":\""@ + rep.dst@ + "\", \"src_addr\":\""@
                + rep.src@ + q,
        exists|p: Seq<char>, q: Seq<char>|
            spec_ntp_body(rep) == p + ", \"li\":\""@ + spec_leap_text(rep.header.leap)
                + "\", \"version\":"@ + decimal(rep.header.version as nat) + ", \"mode\":\""@
                + spec_mode_text(rep.header.mode) + q,
        exists|p: Seq<char>, q: Seq<char>|
            spec_ntp_body(rep) == p + "\", \"stratum\":"@ + decimal(rep.header.stratum as nat)
                + ", \"poll\":"@ + decimal(rep.header.poll as nat) + ", \"precision\":"@
                + rep.precision@ + ", \"root-delay\":"@ + rep.root_delay@
                + ", \"root-dispersion\":"@ + rep.root_dispersion@ + ", \"ref-id\":\""@
                + spec_reference_id_text(rep.header.stratum, rep.header.ref_id)
                + "\", \"ref-ts\":"@ + rep.ref_ts@ + q,
{
    let body = spec_ntp_body(rep);
    let p1 = "\"id\":\""@ + decimal(rep.msm_id as nat) + "\", \"fw\":"@ + decimal(
        rep.firmware_version as nat,
    ) + ", \"mver\": \"2.6.4\", \"lts\":0, \"time\":"@ + signed_decimal(rep.time as int);
    let p2 = p1 + ", \"dst_addr\":\""@ + rep.dst@ + "\", \"src_addr\":\""@ + rep.src@
        + "\", \"proto\":\"UDP\", \"af\": "@ + decimal(rep.af as nat);
    let p3 = p2 + ", \"li\":\""@ + spec_leap_text(rep.header.leap) + "\", \"version\":"@ + decimal(
        rep.header.version as nat,
    ) + ", \"mode\":\""@ + spec_mode_text(rep.header.mode);
    let tail = ", \"result\": [ "@ + rep.samples@ + " ]"@;
    assert(body == p3 + "\", \"stratum\":"@ + decimal(rep.header.stratum as nat) + ", \"poll\":"@
        + decimal(rep.header.poll as nat) + ", \"precision\":"@ + rep.precision@
        + ", \"root-delay\":"@ + rep.root_delay@ + ", \"root-dispersion\":"@
        + rep.root_dispersion@ + ", \"ref-id\":\""@ + spec_reference_id_text(
        rep.header.stratum,
        rep.header.ref_id,
    ) + "\", \"ref-ts\":"@ + rep.ref_ts@ + tail);
    let rest3 = body.subrange(p3.len() as int, body.len() as int);
    assert(body == p2 + ", \"li\":\""@ + spec_leap_text(rep.header.leap) + "\", \"version\":"@
        + decimal(rep.header.version as nat) + ", \"mode\":\""@ + spec_mode_text(rep.header.mode)
        + rest3);
    let rest2 = body.subrange(p2.len() as int, body.len() as int);
    assert(body == p1 + ", \"dst_addr\":\""@ + rep.dst@ + "\", \"src_addr\":\""@ + rep.src@ + (
    "\", \"proto\":\"UDP\", \"af\": "@ + decimal(rep.af as nat) + rest2));
}

/// Writes the body of an NTP result line: identification, time, addresses,
/// the header fields in words and numbers, the reference id, then the
/// samples.
pub fn ntp_body(rep: &NtpReport) -> (r: String)
    ensures
        r@ == spec_ntp_body(*rep),
{
    let mut s = String::from_str("\"id\":\"");
    push_decimal(&mut s, rep.msm_id);
    s.append("\", \"fw\":");
    push_decimal(&mut s, rep.firmware_version as u64);
    s.append(", \"mver\": \"2.6.4\", \"lts\":0, \"time\":");
    push_signed_decimal(&mut s, rep.time);
    s.append(", \"dst_addr\":\"");
    s.append(rep.dst.as_str());
    s.append("\", \"src_addr\":\"");
    s.append(rep.src.as_str());
    s.append("\", \"proto\":\"UDP\", \"af\": ");
    push_decimal(&mut s, rep.af as u64);
    s.append(", \"li\":\"");
    s.append(leap_text(rep.header.leap));
    s.append("\", \"version\":");
    push_decimal(&mut s, rep.header.version as u64);
    s.append(", \"mode\":\"");
    s.append(mode_text(rep.header.mode));
    s.append("\", \"stratum\":");
    push_decimal(&mut s, rep.header.stratum as u64);
    s.append(", \"poll\":");
    push_decimal(&mut s, rep.header.poll as u64);
    s.append(", \"precision\":");
    s.append(rep.precision.as_str());
    s.append(", \"root-delay\":");
    s.append(rep.root_delay.as_str());
    s.append(", \"root-dispersion\":");
    s.append(rep.root_dispersion.as_str());
    s.append(", \"ref-id\":\"");
    let rid = reference_id_text(rep.header.stratum, rep.header.ref_id);
    s.append(rid.as_str());
    s.append("\", \"ref-ts\":");
    s.append(rep.ref_ts.as_str());
    s.append(", \"result\": [ ");
    s.append(rep.samples.as_str());
    s.append(" ]");
    s
}

} // verus!
