//! Fixed-width big-endian encodings of numbers, whose byte order is their
//! numeric order, and the record keys of the measurement store built from
//! them.
use vstd::prelude::*;

verus! {

// ---------------------------------------------------------------------
// Byte strings as numbers
// ---------------------------------------------------------------------

/// 256 to the power `n`.
pub open spec fn p256(n: nat) -> nat
    decreases n,
{
    if n == 0 {
        1
    } else {
        256 * p256((n - 1) as nat)
    }
}

/// The number that the bytes `b` spell, most significant first.
pub open spec fn be_value(b: Seq<u8>) -> nat
    decreases b.len(),
{
    if b.len() == 0 {
        0
    } else {
        (b[0] as nat) * p256((b.len() - 1) as nat) + be_value(b.drop_first())
    }
}

/// Whether `a` sorts before `b` byte by byte, a proper prefix first: the
/// order in which the store keeps its keys.
pub open spec fn lex_lt(a: Seq<u8>, b: Seq<u8>) -> bool
    decreases a.len(),
{
    if a.len() == 0 {
        b.len() > 0
    } else if b.len() == 0 {
        false
    } else if a[0] != b[0] {
        a[0] < b[0]
    } else {
        lex_lt(a.drop_first(), b.drop_first())
    }
}

/// The eight big-endian bytes of `v`.
pub open spec fn spec_encode_u64(v: u64) -> Seq<u8> {
    seq![
        ((v >> 56u64) & 0xffu64) as u8,
        ((v >> 48u64) & 0xffu64) as u8,
        ((v >> 40u64) & 0xffu64) as u8,
        ((v >> 32u64) & 0xffu64) as u8,
        ((v >> 24u64) & 0xffu64) as u8,
        ((v >> 16u64) & 0xffu64) as u8,
        ((v >> 8u64) & 0xffu64) as u8,
        (v & 0xffu64) as u8,
    ]
}

/// `2^63`, the bias that moves the range of `i64` onto that of `u64`.
pub open spec fn i64_bias() -> int {
    0x8000_0000_0000_0000
}

/// The eight bytes of `v + 2^63`, big-endian.
pub open spec fn spec_encode_i64(v: i64) -> Seq<u8> {
    spec_encode_u64((v + i64_bias()) as u64)
}

proof fn lemma_p256_values()
    ensures
        p256(0) == 1,
        p256(1) == 0x100,
        p256(2) == 0x1_0000,
        p256(3) == 0x100_0000,
        p256(4) == 0x1_0000_0000,
        p256(5) == 0x100_0000_0000,
        p256(6) == 0x1_0000_0000_0000,
        p256(7) == 0x100_0000_0000_0000,
        p256(8) == 0x1_0000_0000_0000_0000,
{
    reveal_with_fuel(p256, 9);
}

/// Eight bytes spell the weighted sum of their values.
proof fn lemma_be_value8(b: Seq<u8>)
    requires
        b.len() == 8,
    ensures
        be_value(b) == b[0] * 0x100_0000_0000_0000int + b[1] * 0x1_0000_0000_0000int + b[2]
            * 0x100_0000_0000int + b[3] * 0x1_0000_0000int + b[4] * 0x100_0000int + b[5]
            * 0x1_0000int + b[6] * 0x100int + b[7],
{
    lemma_p256_values();
    let b1 = b.drop_first();
    let b2 = b1.drop_first();
    let b3 = b2.drop_first();
    let b4 = b3.drop_first();
    let b5 = b4.drop_first();
    let b6 = b5.drop_first();
    let b7 = b6.drop_first();
    let b8 = b7.drop_first();
    assert(be_value(b8) == 0);
    assert(be_value(b7) == b[7] * p256(0) + be_value(b8));
    assert(be_value(b6) == b[6] * p256(1) + be_value(b7));
    assert(be_value(b5) == b[5] * p256(2) + be_value(b6));
    assert(be_value(b4) == b[4] * p256(3) + be_value(b5));
    assert(be_value(b3) == b[3] * p256(4) + be_value(b4));
    assert(be_value(b2) == b[2] * p256(5) + be_value(b3));
    assert(be_value(b1) == b[1] * p256(6) + be_value(b2));
    assert(be_value(b) == b[0] * p256(7) + be_value(b1));
}

/// The value of a byte string stays below `256^len`.
pub proof fn lemma_be_value_bound(b: Seq<u8>)
    ensures
        be_value(b) < p256(b.len()),
    decreases b.len(),
{
    if b.len() > 0 {
        let n = (b.len() - 1) as nat;
        lemma_be_value_bound(b.drop_first());
        let p = p256(n);
        let x = b[0] as int;
        assert(x * p <= 255 * p) by (nonlinear_arith)
            requires
                0 <= x <= 255,
                p >= 0,
        ;
    }
}

/// Between byte strings of one length, byte order is numeric order.
pub proof fn lemma_lex_lt_is_numeric(a: Seq<u8>, b: Seq<u8>)
    requires
        a.len() == b.len(),
    ensures
        lex_lt(a, b) <==> be_value(a) < be_value(b),
    decreases a.len(),
{
    if a.len() > 0 {
        let n = (a.len() - 1) as nat;
        let p = p256(n);
        lemma_be_value_bound(a.drop_first());
        lemma_be_value_bound(b.drop_first());
        lemma_lex_lt_is_numeric(a.drop_first(), b.drop_first());
        let x = a[0] as int;
        let y = b[0] as int;
        if x < y {
            assert(x * p + p <= y * p) by (nonlinear_arith)
                requires
                    x < y,
                    p >= 0,
            ;
        } else if y < x {
            assert(y * p + p <= x * p) by (nonlinear_arith)
                requires
                    y < x,
                    p >= 0,
            ;
        }
    }
}

/// Byte strings of one length that spell the same number are equal.
pub proof fn lemma_be_value_injective(a: Seq<u8>, b: Seq<u8>)
    requires
        a.len() == b.len(),
        be_value(a) == be_value(b),
    ensures
        a == b,
    decreases a.len(),
{
    if a.len() > 0 {
        lemma_lex_lt_is_numeric(a, b);
        lemma_lex_lt_is_numeric(b, a);
        let n = (a.len() - 1) as nat;
        let p = p256(n);
        lemma_be_value_bound(a.drop_first());
        lemma_be_value_bound(b.drop_first());
        let x = a[0] as int;
        let y = b[0] as int;
        if x < y {
            assert(x * p + p <= y * p) by (nonlinear_arith)
                requires
                    x < y,
                    p >= 0,
            ;
        } else if y < x {
            assert(y * p + p <= x * p) by (nonlinear_arith)
                requires
                    y < x,
                    p >= 0,
            ;
        }
        lemma_be_value_injective(a.drop_first(), b.drop_first());
        assert(a =~= seq![a[0]] + a.drop_first());
        assert(b =~= seq![b[0]] + b.drop_first());
    }
}

/// The big-endian bytes of `v` spell `v`.
pub proof fn lemma_encode_u64_value(v: u64)
    ensures
        spec_encode_u64(v).len() == 8,
        be_value(spec_encode_u64(v)) == v,
{
    let b = spec_encode_u64(v);
    lemma_be_value8(b);
    assert(v == ((v >> 56u64) & 0xffu64) * 0x100_0000_0000_0000u64 + ((v >> 48u64) & 0xffu64)
        * 0x1_0000_0000_0000u64 + ((v >> 40u64) & 0xffu64) * 0x100_0000_0000u64 + ((v >> 32u64)
        & 0xffu64) * 0x1_0000_0000u64 + ((v >> 24u64) & 0xffu64) * 0x100_0000u64 + ((v >> 16u64)
        & 0xffu64) * 0x1_0000u64 + ((v >> 8u64) & 0xffu64) * 0x100u64 + (v & 0xffu64))
        by (bit_vector);
    assert(((v >> 56u64) & 0xffu64) < 256 && ((v >> 48u64) & 0xffu64) < 256 && ((v >> 40u64)
        & 0xffu64) < 256 && ((v >> 32u64) & 0xffu64) < 256 && ((v >> 24u64) & 0xffu64) < 256 && ((v
        >> 16u64) & 0xffu64) < 256 && ((v >> 8u64) & 0xffu64) < 256 && (v & 0xffu64) < 256)
        by (bit_vector);
}

// ---------------------------------------------------------------------
// The encodings
// ---------------------------------------------------------------------

/// Encodes a u64 as big-endian bytes, so that byte order is number order.
pub fn encode_u64(v: u64) -> (r: [u8; 8])
    ensures
        r@ == spec_encode_u64(v),
{
    let r: [u8; 8] = [
        ((v >> 56u64) & 0xffu64) as u8,
        ((v >> 48u64) & 0xffu64) as u8,
        ((v >> 40u64) & 0xffu64) as u8,
        ((v >> 32u64) & 0xffu64) as u8,
        ((v >> 24u64) & 0xffu64) as u8,
        ((v >> 16u64) & 0xffu64) as u8,
        ((v >> 8u64) & 0xffu64) as u8,
        (v & 0xffu64) as u8,
    ];
    assert(r@ =~= spec_encode_u64(v));
    r
}

/// Decodes a u64 from the first eight bytes, big-endian.
pub fn decode_u64(bytes: &[u8]) -> (r: u64)
    requires
        bytes@.len() >= 8,
    ensures
        r == be_value(bytes@.take(8)),
{
    proof {
        lemma_be_value8(bytes@.take(8));
    }
    (bytes[0] as u64) * 0x100_0000_0000_0000u64 + (bytes[1] as u64) * 0x1_0000_0000_0000u64 + (
    bytes[2] as u64) * 0x100_0000_0000u64 + (bytes[3] as u64) * 0x1_0000_0000u64 + (bytes[4]
        as u64) * 0x100_0000u64 + (bytes[5] as u64) * 0x1_0000u64 + (bytes[6] as u64) * 0x100u64 + (
    bytes[7] as u64)
}

/// Encodes an i64 as the big-endian bytes of `v + 2^63`, so that negative
/// numbers sort before positive ones.
pub fn encode_i64(v: i64) -> (r: [u8; 8])
    ensures
        r@ == spec_encode_i64(v),
{
    let biased: u64 = if v < 0 {
        (v - i64::MIN) as u64
    } else {
        (v as u64) + 0x8000_0000_0000_0000u64
    };
    encode_u64(biased)
}

/// Decodes an i64 from the first eight bytes: their big-endian value less
/// `2^63`.
pub fn decode_i64(bytes: &[u8]) -> (r: i64)
    requires
        bytes@.len() >= 8,
    ensures
        r == be_value(bytes@.take(8)) - i64_bias(),
{
    let biased = decode_u64(bytes);
    if biased >= 0x8000_0000_0000_0000u64 {
        (biased - 0x8000_0000_0000_0000u64) as i64
    } else {
        (biased as i64) - i64::MAX - 1
    }
}

// ---------------------------------------------------------------------
// What the encodings promise
// ---------------------------------------------------------------------

/// Decoding the encoding of a u64 gives it back.
pub proof fn lemma_u64_roundtrip(v: u64)
    ensures
        spec_encode_u64(v).len() == 8,
        be_value(spec_encode_u64(v).take(8)) == v,
{
    lemma_encode_u64_value(v);
    assert(spec_encode_u64(v).take(8) =~= spec_encode_u64(v));
}

/// Decoding the encoding of an i64 gives it back.
pub proof fn lemma_i64_roundtrip(v: i64)
    ensures
        spec_encode_i64(v).len() == 8,
        be_value(spec_encode_i64(v).take(8)) - i64_bias() == v,
{
    lemma_u64_roundtrip((v + i64_bias()) as u64);
}

/// u64 encodings sort as the numbers do.
pub proof fn lemma_u64_order(a: u64, b: u64)
    ensures
        lex_lt(spec_encode_u64(a), spec_encode_u64(b)) <==> a < b,
        spec_encode_u64(a) == spec_encode_u64(b) <==> a == b,
{
    lemma_encode_u64_value(a);
    lemma_encode_u64_value(b);
    lemma_lex_lt_is_numeric(spec_encode_u64(a), spec_encode_u64(b));
}

/// i64 encodings sort as the numbers do, negative ones first.
pub proof fn lemma_i64_order(a: i64, b: i64)
    ensures
        lex_lt(spec_encode_i64(a), spec_encode_i64(b)) <==> a < b,
        spec_encode_i64(a) == spec_encode_i64(b) <==> a == b,
{
    lemma_u64_order((a + i64_bias()) as u64, (b + i64_bias()) as u64);
}

} // verus!
