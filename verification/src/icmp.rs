//! ICMP packets: building echo requests and reading what comes back.
//!
//! Reading follows the packet views of the `pnet` crate: a packet is read
//! only when it holds the fixed header of its kind (4 bytes for any ICMP
//! message, 8 for echo replies and error messages), identifier and
//! sequence number are big-endian at bytes 4 and 6, and the payload of an
//! error message starts at byte 8.
use crate::dns::be16;
use vstd::prelude::*;

verus! {

/// What an ICMP packet says.
#[derive(Debug, Clone, PartialEq)]
pub enum IcmpResponse {
    EchoReply { identifier: u16, sequence: u16 },
    /// The packet that caused the error, as far as it is quoted
    TimeExceeded(Vec<u8>),
    /// The packet that caused the error, as far as it is quoted
    DestinationUnreachable(Vec<u8>),
    Other,
}

/// An `IcmpResponse` with its bytes as a sequence.
pub enum IcmpView {
    EchoReply(u16, u16),
    TimeExceeded(Seq<u8>),
    DestinationUnreachable(Seq<u8>),
    Other,
}

impl View for IcmpResponse {
    type V = IcmpView;

    open spec fn view(&self) -> IcmpView {
        match self {
            IcmpResponse::EchoReply { identifier, sequence } => IcmpView::EchoReply(
                *identifier,
                *sequence,
            ),
            IcmpResponse::TimeExceeded(b) => IcmpView::TimeExceeded(b@),
            IcmpResponse::DestinationUnreachable(b) => IcmpView::DestinationUnreachable(b@),
            IcmpResponse::Other => IcmpView::Other,
        }
    }
}

/// The ICMPv4 type of an echo reply.
pub const ICMPV4_ECHO_REPLY: u8 = 0;
/// The ICMPv4 type of a destination unreachable message.
pub const ICMPV4_DEST_UNREACHABLE: u8 = 3;
/// The ICMPv4 type of an echo request.
pub const ICMPV4_ECHO_REQUEST: u8 = 8;
/// The ICMPv4 type of a time exceeded message.
pub const ICMPV4_TIME_EXCEEDED: u8 = 11;
/// The ICMPv6 type of a destination unreachable message.
pub const ICMPV6_DEST_UNREACHABLE: u8 = 1;
/// The ICMPv6 type of a time exceeded message.
pub const ICMPV6_TIME_EXCEEDED: u8 = 3;
/// The ICMPv6 type of an echo request.
pub const ICMPV6_ECHO_REQUEST: u8 = 128;
/// The ICMPv6 type of an echo reply.
pub const ICMPV6_ECHO_REPLY: u8 = 129;

/// What an ICMPv4 packet says; `None` when it is too short for its kind.
pub open spec fn spec_icmpv4(b: Seq<u8>) -> Option<IcmpView> {
    if b.len() < 4 {
        None
    } else if b[0] == 0 {
        if b.len() < 8 {
            None
        } else {
            Some(IcmpView::EchoReply(be16(b, 4), be16(b, 6)))
        }
    } else if b[0] == 11 {
        if b.len() < 8 {
            None
        } else {
            Some(IcmpView::TimeExceeded(b.skip(8)))
        }
    } else if b[0] == 3 {
        if b.len() < 8 {
            None
        } else {
            Some(IcmpView::DestinationUnreachable(b.skip(8)))
        }
    } else {
        Some(IcmpView::Other)
    }
}

/// What an ICMPv6 packet says; `None` when it is too short for its kind.
pub open spec fn spec_icmpv6(b: Seq<u8>) -> Option<IcmpView> {
    if b.len() < 4 {
        None
    } else if b[0] == 129 {
        if b.len() < 8 {
            None
        } else {
            Some(IcmpView::EchoReply(be16(b, 4), be16(b, 6)))
        }
    } else if b[0] == 1 {
        if b.len() < 8 {
            None
        } else {
            Some(IcmpView::DestinationUnreachable(b.skip(8)))
        }
    } else if b[0] == 3 {
        if b.len() < 8 {
            None
        } else {
            Some(IcmpView::TimeExceeded(b.skip(8)))
        }
    } else {
        Some(IcmpView::Other)
    }
}

fn be16_of(b: &[u8], i: usize) -> (r: u16)
    requires
        i + 1 < b@.len(),
    ensures
        r == be16(b@, i as int),
{
    (b[i] as u16) * 256 + (b[i + 1] as u16)
}

fn bytes_from(b: &[u8], start: usize) -> (r: Vec<u8>)
    requires
        start <= b@.len(),
    ensures
        r@ == b@.skip(start as int),
{
    let mut out: Vec<u8> = Vec::new();
    let mut i = start;
    while i < b.len()
        invariant
            start <= i <= b@.len(),
            out@ == b@.subrange(start as int, i as int),
        decreases b.len() - i,
    {
        out.push(b[i]);
        i = i + 1;
        assert(out@ =~= b@.subrange(start as int, i as int));
    }
    assert(b@.subrange(start as int, b@.len() as int) =~= b@.skip(start as int));
    out
}

/// Reads an ICMPv4 packet.
pub fn parse_icmpv4_packet(buffer: &[u8]) -> (r: Option<IcmpResponse>)
    ensures
        match r {
            Some(x) => spec_icmpv4(buffer@) == Some(x@),
            None => spec_icmpv4(buffer@) is None,
        },
{
    if buffer.len() < 4 {
        return None;
    }
    let t = buffer[0];
    if t == 0 {
        if buffer.len() < 8 {
            return None;
        }
        Some(
            IcmpResponse::EchoReply {
                identifier: be16_of(buffer, 4),
                sequence: be16_of(buffer, 6),
            },
        )
    } else if t == 11 {
        if buffer.len() < 8 {
            return None;
        }
        Some(IcmpResponse::TimeExceeded(bytes_from(buffer, 8)))
    } else if t == 3 {
        if buffer.len() < 8 {
            return None;
        }
        Some(IcmpResponse::DestinationUnreachable(bytes_from(buffer, 8)))
    } else {
        Some(IcmpResponse::Other)
    }
}

/// Reads an ICMPv6 packet.
pub fn parse_icmpv6_packet(buffer: &[u8]) -> (r: Option<IcmpResponse>)
    ensures
        match r {
            Some(x) => spec_icmpv6(buffer@) == Some(x@),
            None => spec_icmpv6(buffer@) is None,
        },
{
    if buffer.len() < 4 {
        return None;
    }
    let t = buffer[0];
    if t == 129 {
        if buffer.len() < 8 {
            return None;
        }
        Some(
            IcmpResponse::EchoReply {
                identifier: be16_of(buffer, 4),
                sequence: be16_of(buffer, 6),
            },
        )
    } else if t == 1 {
        if buffer.len() < 8 {
            return None;
        }
        Some(IcmpResponse::DestinationUnreachable(bytes_from(buffer, 8)))
    } else if t == 3 {
        if buffer.len() < 8 {
            return None;
        }
        Some(IcmpResponse::TimeExceeded(bytes_from(buffer, 8)))
    } else {
        Some(IcmpResponse::Other)
    }
}

/// The identifier and sequence number of an ICMPv4 echo reply; `None` for
/// anything else.
pub fn parse_icmpv4_echo_reply(buffer: &[u8]) -> (r: Option<(u16, u16)>)
    ensures
        r == (match spec_icmpv4(buffer@) {
            Some(IcmpView::EchoReply(id, seq)) => Some((id, seq)),
            _ => None,
        }),
{
    match parse_icmpv4_packet(buffer) {
        Some(IcmpResponse::EchoReply { identifier, sequence }) => Some((identifier, sequence)),
        _ => None,
    }
}

/// The identifier and sequence number of an ICMPv6 echo reply; `None` for
/// anything else.
pub fn parse_icmpv6_echo_reply(buffer: &[u8]) -> (r: Option<(u16, u16)>)
    ensures
        r == (match spec_icmpv6(buffer@) {
            Some(IcmpView::EchoReply(id, seq)) => Some((id, seq)),
            _ => None,
        }),
{
    match parse_icmpv6_packet(buffer) {
        Some(IcmpResponse::EchoReply { identifier, sequence }) => Some((identifier, sequence)),
        _ => None,
    }
}

// ---------------------------------------------------------------------
// Echo requests
// ---------------------------------------------------------------------

/// Why an echo request could not be built.
#[derive(Debug, Clone, Copy, PartialEq, Eq, Structural)]
pub enum IcmpBuildError {
    /// The buffer cannot hold the 8-byte echo header.
    BufferTooSmall,
}

/// The sum of the first `n` big-endian 16-bit words of `d`, word 1 (the
/// checksum field) left out.
pub open spec fn word_sum(d: Seq<u8>, n: nat) -> nat
    decreases n,
{
    if n == 0 {
        0
    } else {
        word_sum(d, (n - 1) as nat) + if n - 1 == 1 {
            0nat
        } else {
            (d[2 * (n - 1)] * 256 + d[2 * (n - 1) + 1]) as nat
        }
    }
}

/// The sum of the message's words, a last odd byte counted as the high
/// byte of a word.
pub open spec fn message_word_sum(d: Seq<u8>) -> nat {
    word_sum(d, d.len() / 2) + if d.len() % 2 == 1 {
        (d[d.len() - 1] * 256) as nat
    } else {
        0nat
    }
}

/// A sum folded to 16 bits: its carries added back until none is left.
pub open spec fn fold16(s: nat) -> nat
    decreases s,
{
    if s < 0x1_0000 {
        s
    } else {
        proof {
            assert(s / 0x1_0000 + s % 0x1_0000 < s) by (nonlinear_arith)
                requires
                    s >= 0x1_0000,
            ;
        }
        fold16(s / 0x1_0000 + s % 0x1_0000)
    }
}

/// The Internet checksum (RFC 1071) of an ICMPv4 message, its checksum
/// field left out: the ones' complement of the folded sum of its words (0
/// for an empty message).
pub open spec fn spec_message_checksum(packet: Seq<u8>) -> u16 {
    if packet.len() == 0 {
        0
    } else {
        (0xffff - fold16(message_word_sum(packet))) as u16
    }
}

/// `pnet::packet::icmp::checksum` of the message in `packet`: pnet's
/// `util::checksum` with word 1 skipped, which sums the big-endian words in
/// a `u32` (no overflow for messages of at most 2^17 bytes), folds the
/// carries and returns the complement.
#[verifier::external_body]
fn message_checksum(packet: &[u8]) -> (r: u16)
    requires
        4 <= packet@.len() <= 0x2_0000,
    ensures
        r == spec_message_checksum(packet@),
{
    pnet::packet::icmp::checksum(&pnet::packet::icmp::IcmpPacket::new(packet).unwrap())
}

/// The high byte of `x`.
pub open spec fn high_byte(x: u16) -> u8 {
    (x / 256) as u8
}

/// The low byte of `x`.
pub open spec fn low_byte(x: u16) -> u8 {
    (x % 256) as u8
}

fn high_byte_of(x: u16) -> (r: u8)
    ensures
        r == high_byte(x),
{
    (x / 256) as u8
}

fn low_byte_of(x: u16) -> (r: u8)
    ensures
        r == low_byte(x),
{
    (x % 256) as u8
}

/// An echo message in a buffer of `len` bytes: its type, code 0, the
/// checksum field, identifier and sequence (big-endian), the payload, and
/// the rest of the old buffer.
pub open spec fn echo_message(
    old: Seq<u8>,
    kind: u8,
    checksum: u16,
    identifier: u16,
    sequence: u16,
    payload: Seq<u8>,
) -> Seq<u8> {
    seq![
        kind,
        0u8,
        high_byte(checksum),
        low_byte(checksum),
        high_byte(identifier),
        low_byte(identifier),
        high_byte(sequence),
        low_byte(sequence),
    ] + payload + old.skip(8 + payload.len() as int)
}

fn write_echo(buffer: &mut Vec<u8>, kind: u8, identifier: u16, sequence: u16, payload: &[u8])
    requires
        8 + payload@.len() <= old(buffer)@.len(),
    ensures
        final(buffer)@ == echo_message(old(buffer)@, kind, 0, identifier, sequence, payload@),
{
    buffer.set(0, kind);
    buffer.set(1, 0);
    buffer.set(2, 0);
    buffer.set(3, 0);
    buffer.set(4, high_byte_of(identifier));
    buffer.set(5, low_byte_of(identifier));
    buffer.set(6, high_byte_of(sequence));
    buffer.set(7, low_byte_of(sequence));
    let ghost m = echo_message(old(buffer)@, kind, 0, identifier, sequence, payload@);
    assert(forall|j: int| 0 <= j < 8 ==> buffer@[j] == m[j]);
    let mut i: usize = 0;
    while i < payload.len()
        invariant
            i <= payload@.len(),
            8 + payload@.len() <= buffer@.len(),
            buffer@.len() == old(buffer)@.len(),
            m == echo_message(old(buffer)@, kind, 0, identifier, sequence, payload@),
            forall|j: int| 0 <= j < 8 ==> buffer@[j] == m[j],
            forall|j: int| 0 <= j < i ==> buffer@[8 + j] == payload@[j],
            forall|j: int| 8 + payload@.len() <= j < buffer@.len() ==> buffer@[j] == old(buffer)@[j],
        decreases payload.len() - i,
    {
        let n = buffer.len();
        assert(8 + i < n);
        buffer.set(8 + i, payload[i]);
        i = i + 1;
    }
    assert forall|j: int| 0 <= j < buffer@.len() implies buffer@[j] == m[j] by {
        if 8 <= j < 8 + payload@.len() {
            assert(buffer@[8 + (j - 8)] == payload@[j - 8]);
        }
    }
    assert(buffer@ =~= m);
}

/// Builds an ICMPv4 echo request in `buffer`, which it fills whole: type 8,
/// code 0, identifier, sequence, the payload, and the checksum over the
/// whole buffer. Returns the length of the message, the buffer's length.
pub fn build_icmpv4_echo_request(
    buffer: &mut Vec<u8>,
    identifier: u16,
    sequence: u16,
    payload: &[u8],
) -> (r: Result<usize, IcmpBuildError>)
    requires
        old(buffer)@.len() >= 8 ==> 8 + payload@.len() <= old(buffer)@.len(),
        old(buffer)@.len() <= 0x2_0000,
    ensures
        old(buffer)@.len() < 8 ==> r == Err::<usize, IcmpBuildError>(IcmpBuildError::BufferTooSmall)
            && final(buffer)@ == old(buffer)@,
        old(buffer)@.len() >= 8 ==> (r matches Ok(n) && n == old(buffer)@.len())
            && final(buffer)@ == echo_message(
            old(buffer)@,
            8,
            spec_message_checksum(echo_message(old(buffer)@, 8, 0, identifier, sequence, payload@)),
            identifier,
            sequence,
            payload@,
        ),
{
    if buffer.len() < 8 {
        return Err(IcmpBuildError::BufferTooSmall);
    }
    write_echo(buffer, 8, identifier, sequence, payload);
    let ghost unsummed = buffer@;
    let sum = message_checksum(buffer.as_slice());
    buffer.set(2, high_byte_of(sum));
    buffer.set(3, low_byte_of(sum));
    assert(buffer@ =~= echo_message(old(buffer)@, 8, sum, identifier, sequence, payload@));
    Ok(buffer.len())
}

/// Builds an ICMPv6 echo request in `buffer`, which it fills whole: type
/// 128, code 0, identifier, sequence, the payload. The checksum field
/// stays 0: the kernel fills it in for ICMPv6 sockets. Returns the length
/// of the message, the buffer's length.
pub fn build_icmpv6_echo_request(
    buffer: &mut Vec<u8>,
    identifier: u16,
    sequence: u16,
    payload: &[u8],
) -> (r: Result<usize, IcmpBuildError>)
    requires
        old(buffer)@.len() >= 8 ==> 8 + payload@.len() <= old(buffer)@.len(),
    ensures
        old(buffer)@.len() < 8 ==> r == Err::<usize, IcmpBuildError>(IcmpBuildError::BufferTooSmall)
            && final(buffer)@ == old(buffer)@,
        old(buffer)@.len() >= 8 ==> (r matches Ok(n) && n == old(buffer)@.len())
            && final(buffer)@ == echo_message(old(buffer)@, 128, 0, identifier, sequence, payload@),
{
    if buffer.len() < 8 {
        return Err(IcmpBuildError::BufferTooSmall);
    }
    write_echo(buffer, 128, identifier, sequence, payload);
    Ok(buffer.len())
}

/// A 16-bit number's two bytes read back big-endian give the number.
pub proof fn lemma_bytes_be16(x: u16)
    ensures
        ((high_byte(x) as int) * 256 + (low_byte(x) as int)) as u16 == x,
{
}

/// An echo request built for `identifier` and `sequence`, once answered
/// (its type set to echo reply), reads back as the echo reply with the same
/// identifier and sequence.
pub proof fn lemma_echo_roundtrip(
    old: Seq<u8>,
    checksum: u16,
    identifier: u16,
    sequence: u16,
    payload: Seq<u8>,
)
    requires
        8 + payload.len() <= old.len(),
    ensures
        spec_icmpv4(echo_message(old, 8, checksum, identifier, sequence, payload).update(0, 0))
            == Some(IcmpView::EchoReply(identifier, sequence)),
        spec_icmpv6(echo_message(old, 129, checksum, identifier, sequence, payload)) == Some(
            IcmpView::EchoReply(identifier, sequence),
        ),
{
    let m = echo_message(old, 8, checksum, identifier, sequence, payload);
    let m6 = echo_message(old, 129, checksum, identifier, sequence, payload);
    let m0 = m.update(0, 0);
    assert(m0[4] == high_byte(identifier) && m0[5] == low_byte(identifier));
    assert(m0[6] == high_byte(sequence) && m0[7] == low_byte(sequence));
    assert(m6[4] == high_byte(identifier) && m6[5] == low_byte(identifier));
    assert(m6[6] == high_byte(sequence) && m6[7] == low_byte(sequence));
    lemma_bytes_be16(identifier);
    lemma_bytes_be16(sequence);
}

// ---------------------------------------------------------------------
// Windows ICMP helper status
// ---------------------------------------------------------------------

/// The outcome of a ping through the Windows ICMP helper API.
#[derive(Debug, Clone, Copy, PartialEq, Eq, Structural)]
pub enum IcmpStatus {
    Success,
    TtlExpired,
    DestUnreachable,
    TimedOut,
    Other(u32),
}

/// What a status code of the ICMP helper API means: 0 success, 11013 TTL
/// expired in transit, 11002 to 11005 destination (network, host,
/// protocol, port) unreachable, 11010 timed out.
pub open spec fn spec_icmp_status(code: u32) -> IcmpStatus {
    if code == 0 {
        IcmpStatus::Success
    } else if code == 11013 {
        IcmpStatus::TtlExpired
    } else if 11002 <= code <= 11005 {
        IcmpStatus::DestUnreachable
    } else if code == 11010 {
        IcmpStatus::TimedOut
    } else {
        IcmpStatus::Other(code)
    }
}

impl From<u32> for IcmpStatus {
    fn from(status: u32) -> (r: Self) {
        if status == 0 {
            IcmpStatus::Success
        } else if status == 11013 {
            IcmpStatus::TtlExpired
        } else if 11002 <= status && status <= 11005 {
            IcmpStatus::DestUnreachable
        } else if status == 11010 {
            IcmpStatus::TimedOut
        } else {
            IcmpStatus::Other(status)
        }
    }
}

impl vstd::std_specs::convert::FromSpecImpl<u32> for IcmpStatus {
    open spec fn obeys_from_spec() -> bool {
        true
    }

    open spec fn from_spec(status: u32) -> IcmpStatus {
        spec_icmp_status(status)
    }
}

} // verus!
