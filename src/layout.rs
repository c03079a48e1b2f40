//! The bit layout of an identifier, from the most significant bit down:
//! 48-bit timestamp, 4-bit version (7), 12-bit field A, 2-bit variant (`10`),
//! 62-bit field B.
use vstd::prelude::*;

verus! {

/// Largest timestamp, in milliseconds, that the 48-bit field can hold.
pub const MAX_TIMESTAMP: u64 = 0xFFFF_FFFF_FFFF;

/// Largest value of the 18-bit sequence counter of counted mode.
pub const MAX_SEQUENCE: u32 = 0x3FFFF;

/// The identifier made of a timestamp and the two free fields.
/// Bits of `timestamp` above the 48th fall off the top.
pub open spec fn layout(timestamp: u64, field_a: u128, field_b: u128) -> u128 {
    ((timestamp as u128) << 80u128) | (7u128 << 76u128) | (field_a << 64u128) | (2u128 << 62u128)
        | field_b
}

/// A random-mode identifier: field A is the low 12 bits of `r1`, field B the
/// low 62 bits of `r2`.
pub open spec fn random_id(timestamp: u64, r1: u32, r2: u64) -> u128 {
    layout(timestamp, (r1 % 0x1000) as u128, (r2 % 0x4000_0000_0000_0000) as u128)
}

/// A counted-mode identifier: the high 12 bits of the 18-bit `sequence` fill
/// field A, its low 6 bits the top of field B, and the low 56 bits of `r` the
/// rest of field B.
pub open spec fn counted_id(timestamp: u64, sequence: u32, r: u64) -> u128 {
    layout(
        timestamp,
        ((sequence / 64) % 0x1000) as u128,
        (((sequence % 64) as u128) * 0x0100_0000_0000_0000 + (r % 0x0100_0000_0000_0000) as u128)
            as u128,
    )
}

/// The 48-bit timestamp field.
pub open spec fn timestamp_of(id: u128) -> u128 {
    id >> 80u128
}

/// The 4-bit version field.
pub open spec fn version_of(id: u128) -> u128 {
    (id >> 76u128) & 0xF
}

/// The two top bits of the variant field.
pub open spec fn variant_of(id: u128) -> u128 {
    (id >> 62u128) & 0x3
}

/// The 18-bit sequence counter that counted mode places in fields A and B.
pub open spec fn sequence_of(id: u128) -> u128 {
    (((id >> 64u128) & 0xFFF) * 64 + ((id >> 56u128) & 0x3F)) as u128
}

/// Packs a timestamp and two random words into a random-mode identifier.
pub fn assemble_random(timestamp: u64, r1: u32, r2: u64) -> (r: u128)
    ensures
        r == random_id(timestamp, r1, r2),
{
    let rand_a = (r1 & 0xFFF) as u128;
    let rand_b = (r2 & 0x3FFF_FFFF_FFFF_FFFF) as u128;
    assert(r1 & 0xFFF == r1 % 0x1000) by (bit_vector);
    assert(r2 & 0x3FFF_FFFF_FFFF_FFFF == r2 % 0x4000_0000_0000_0000) by (bit_vector);
    ((timestamp as u128) << 80u128) | (7u128 << 76u128) | (rand_a << 64u128) | (2u128 << 62u128)
        | rand_b
}

/// Packs a timestamp, an 18-bit sequence value and a random word into a
/// counted-mode identifier.
pub fn assemble_counted(timestamp: u64, sequence: u32, r: u64) -> (id: u128)
    ensures
        id == counted_id(timestamp, sequence, r),
{
    let rand_a = (sequence >> 6) & 0xFFF;
    let rand_b_high = sequence & 0x3F;
    let rand_b_low = r & 0x00FF_FFFF_FFFF_FFFF;
    let random_part = ((rand_b_high as u128) << 56u128) | (rand_b_low as u128);
    proof {
        assert(rand_a == (sequence / 64) % 0x1000) by (bit_vector)
            requires
                rand_a == (sequence >> 6) & 0xFFF,
        ;
        assert(rand_b_high == sequence % 64) by (bit_vector)
            requires
                rand_b_high == sequence & 0x3F,
        ;
        assert(rand_b_low == r % 0x0100_0000_0000_0000) by (bit_vector)
            requires
                rand_b_low == r & 0x00FF_FFFF_FFFF_FFFF,
        ;
        assert(random_part == (rand_b_high as u128) * 0x0100_0000_0000_0000 + rand_b_low as u128)
            by (bit_vector)
            requires
                random_part == ((rand_b_high as u128) << 56u128) | (rand_b_low as u128),
                rand_b_high < 64,
                rand_b_low < 0x0100_0000_0000_0000,
        ;
    }
    ((timestamp as u128) << 80u128) | (7u128 << 76u128) | ((rand_a as u128) << 64u128) | (2u128
        << 62u128) | random_part
}

/// An identifier of this layout has version 7, variant `10` and the two
/// fields it was packed with, and reads back its timestamp where that fits in
/// 48 bits.
pub proof fn lemma_layout_fields(timestamp: u64, field_a: u128, field_b: u128)
    requires
        field_a < 0x1000,
        field_b < 0x4000_0000_0000_0000,
    ensures
        timestamp <= MAX_TIMESTAMP ==> timestamp_of(layout(timestamp, field_a, field_b))
            == timestamp as u128,
        version_of(layout(timestamp, field_a, field_b)) == 7,
        variant_of(layout(timestamp, field_a, field_b)) == 2,
        (layout(timestamp, field_a, field_b) >> 64u128) & 0xFFF == field_a,
        layout(timestamp, field_a, field_b) & 0x3FFF_FFFF_FFFF_FFFF == field_b,
{
    let id = layout(timestamp, field_a, field_b);
    let t = timestamp as u128;
    assert(id == (t << 80u128) | (7u128 << 76u128) | (field_a << 64u128) | (2u128 << 62u128)
        | field_b);
    assert(
        ((id >> 76u128) & 0xF) == 7
        && ((id >> 62u128) & 0x3) == 2
        && ((id >> 64u128) & 0xFFF) == field_a
        && (id & 0x3FFF_FFFF_FFFF_FFFF) == field_b
    ) by (bit_vector)
        requires
            id == (t << 80u128) | (7u128 << 76u128) | (field_a << 64u128) | (2u128 << 62u128)
                | field_b,
            field_a < 0x1000,
            field_b < 0x4000_0000_0000_0000,
    ;
    if timestamp <= MAX_TIMESTAMP {
        assert((id >> 80u128) == t) by (bit_vector)
            requires
                id == (t << 80u128) | (7u128 << 76u128) | (field_a << 64u128) | (2u128 << 62u128)
                    | field_b,
                t <= 0xFFFF_FFFF_FFFF,
                field_a < 0x1000,
                field_b < 0x4000_0000_0000_0000,
        ;
    }
}

/// A random-mode identifier has version 7 and variant `10`, and reads back
/// its timestamp where that fits in 48 bits.
pub proof fn lemma_random_fields(timestamp: u64, r1: u32, r2: u64)
    ensures
        timestamp <= MAX_TIMESTAMP ==> timestamp_of(random_id(timestamp, r1, r2))
            == timestamp as u128,
        version_of(random_id(timestamp, r1, r2)) == 7,
        variant_of(random_id(timestamp, r1, r2)) == 2,
{
    lemma_layout_fields(timestamp, (r1 % 0x1000) as u128, (r2 % 0x4000_0000_0000_0000) as u128);
}

/// A counted-mode identifier has version 7 and variant `10`, and reads back
/// its sequence value and, where that fits in 48 bits, its timestamp.
pub proof fn lemma_counted_fields(timestamp: u64, sequence: u32, r: u64)
    ensures
        timestamp <= MAX_TIMESTAMP ==> timestamp_of(counted_id(timestamp, sequence, r))
            == timestamp as u128,
        version_of(counted_id(timestamp, sequence, r)) == 7,
        variant_of(counted_id(timestamp, sequence, r)) == 2,
        sequence <= MAX_SEQUENCE ==> sequence_of(counted_id(timestamp, sequence, r))
            == sequence as u128,
{
    let hi = ((sequence / 64) % 0x1000) as u128;
    let lo = (sequence % 64) as u128;
    let low = (r % 0x0100_0000_0000_0000) as u128;
    let b = (lo * 0x0100_0000_0000_0000 + low) as u128;
    lemma_layout_fields(timestamp, hi, b);
    let id = counted_id(timestamp, sequence, r);
    if sequence <= MAX_SEQUENCE {
        assert(hi == sequence / 64 && lo == sequence % 64) by (bit_vector)
            requires
                hi == ((sequence / 64) % 0x1000) as u128,
                lo == (sequence % 64) as u128,
                sequence <= 0x3FFFF,
        ;
    }
    assert((id >> 56u128) & 0x3F == lo) by (bit_vector)
        requires
            id & 0x3FFF_FFFF_FFFF_FFFF == b,
            b == lo * 0x0100_0000_0000_0000 + low,
            lo < 64,
            low < 0x0100_0000_0000_0000,
    ;
}

/// Within counted mode, a later (timestamp, sequence) pair gives a larger
/// identifier, whatever random bits either carries.
pub proof fn lemma_counted_id_order(
    ts1: u64,
    seq1: u32,
    r1: u64,
    ts2: u64,
    seq2: u32,
    r2: u64,
)
    requires
        ts1 <= MAX_TIMESTAMP,
        ts2 <= MAX_TIMESTAMP,
        seq1 <= MAX_SEQUENCE,
        seq2 <= MAX_SEQUENCE,
        ts1 < ts2 || (ts1 == ts2 && seq1 < seq2),
    ensures
        counted_id(ts1, seq1, r1) < counted_id(ts2, seq2, r2),
{
    let a = counted_id(ts1, seq1, r1);
    let b = counted_id(ts2, seq2, r2);
    lemma_counted_fields(ts1, seq1, r1);
    lemma_counted_fields(ts2, seq2, r2);
    let (ha, la) = ((a >> 64u128) & 0xFFF, (a >> 56u128) & 0x3F);
    let (hb, lb) = ((b >> 64u128) & 0xFFF, (b >> 56u128) & 0x3F);
    assert(la < 64 && lb < 64 && ha < 0x1000 && hb < 0x1000) by (bit_vector)
        requires
            ha == (a >> 64u128) & 0xFFF,
            hb == (b >> 64u128) & 0xFFF,
            la == (a >> 56u128) & 0x3F,
            lb == (b >> 56u128) & 0x3F,
    ;
    if ts1 == ts2 {
        assert(ha < hb || (ha == hb && la < lb)) by (nonlinear_arith)
            requires
                ha * 64 + la < hb * 64 + lb,
                la < 64,
                lb < 64,
        ;
    }
    assert(a < b) by (bit_vector)
        requires
            (a >> 80u128) < (b >> 80u128) || ((a >> 80u128) == (b >> 80u128) && ((
            a >> 76u128) & 0xF) == ((b >> 76u128) & 0xF) && ((a >> 62u128) & 0x3) == ((b
            >> 62u128) & 0x3) && (((a >> 64u128) & 0xFFF) < ((b >> 64u128) & 0xFFF) || (((a
            >> 64u128) & 0xFFF) == ((b >> 64u128) & 0xFFF) && ((a >> 56u128) & 0x3F) < ((b
            >> 56u128) & 0x3F)))),
    ;
}

} // verus!
