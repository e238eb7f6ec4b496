//! Ordinals of IEEE-754 single-precision numbers.
//!
//! A single-precision number is a sign bit and a 31-bit magnitude, and among
//! numbers of one sign the larger magnitude is the number farther from zero.
//! Read as a signed integer, sign and magnitude give an ordinal: an integer
//! with the sign and the order of the number it stands for. Both zeros have
//! the ordinal 0. A bit pattern that is not a number has the least `i64` as
//! its ordinal, below every number.

use vstd::prelude::*;

verus! {

/// The sign bit of a bit pattern.
pub const SIGN_BIT: u32 = 0x8000_0000;

/// The bits of a pattern that hold its magnitude.
pub const MAGNITUDE_BITS: u32 = 0x7fff_ffff;

/// The magnitude of infinity, the largest magnitude of a number. Every
/// larger magnitude marks a pattern that is not a number.
pub const INFINITY: u32 = 0x7f80_0000;

/// The ordinal of a pattern that is not a number.
pub const NOT_A_NUMBER: i64 = i64::MIN;

/// The pattern that stands for "not a number" where one is to be given.
pub const QUIET_NAN: u32 = 0x7fc0_0000;

/// The magnitude of a bit pattern.
pub open spec fn magnitude(bits: u32) -> u32 {
    bits & MAGNITUDE_BITS
}

/// The sign bit of the pattern is set.
pub open spec fn sign_set(bits: u32) -> bool {
    bits & SIGN_BIT != 0
}

/// The pattern stands for a number, infinities included.
pub open spec fn is_number(bits: u32) -> bool {
    magnitude(bits) <= INFINITY
}

/// The ordinal of a bit pattern.
pub open spec fn ordinal_of(bits: u32) -> i64 {
    if !is_number(bits) {
        NOT_A_NUMBER
    } else if sign_set(bits) {
        (-(magnitude(bits) as int)) as i64
    } else {
        magnitude(bits) as i64
    }
}

/// An ordinal that some number has.
pub open spec fn in_range(ordinal: i64) -> bool {
    -(INFINITY as int) <= ordinal as int && (ordinal as int) <= INFINITY as int
}

/// An ordinal that some bit pattern has.
pub open spec fn has_pattern(ordinal: i64) -> bool {
    in_range(ordinal) || ordinal == NOT_A_NUMBER
}

/// The bit pattern of an ordinal that has one; the ordinal 0 gives the
/// positive zero.
pub open spec fn bits_of(ordinal: i64) -> u32 {
    if ordinal == NOT_A_NUMBER {
        QUIET_NAN
    } else if ordinal >= 0 {
        ordinal as u32
    } else {
        ((-(ordinal as int)) as u32) | SIGN_BIT
    }
}

/// The ordinal of a bit pattern.
pub fn from_bits(bits: u32) -> (ordinal: i64)
    ensures
        ordinal == ordinal_of(bits),
{
    let magnitude: u32 = bits & MAGNITUDE_BITS;
    if magnitude > INFINITY {
        NOT_A_NUMBER
    } else if bits & SIGN_BIT != 0 {
        -(magnitude as i64)
    } else {
        magnitude as i64
    }
}

/// The bit pattern of an ordinal, where some pattern has that ordinal.
pub fn to_bits(ordinal: i64) -> (bits: Option<u32>)
    ensures
        bits is Some <==> has_pattern(ordinal),
        bits is Some ==> bits.unwrap() == bits_of(ordinal),
{
    if ordinal == NOT_A_NUMBER {
        Some(QUIET_NAN)
    } else if 0 <= ordinal && ordinal <= 0x7f80_0000 {
        Some(ordinal as u32)
    } else if -0x7f80_0000 <= ordinal && ordinal < 0 {
        Some(((-ordinal) as u32) | SIGN_BIT)
    } else {
        None
    }
}

/// The ordinal of a number is in range and has the sign of the number: it
/// is negative exactly for a nonzero number with the sign bit set, and zero
/// exactly for the two zeros.
pub proof fn lemma_ordinal_sign(bits: u32)
    requires
        is_number(bits),
    ensures
        in_range(ordinal_of(bits)),
        ordinal_of(bits) == 0 <==> magnitude(bits) == 0,
        ordinal_of(bits) < 0 <==> sign_set(bits) && magnitude(bits) != 0,
        ordinal_of(bits) > 0 <==> !sign_set(bits) && magnitude(bits) != 0,
{
}

/// Among numbers without the sign bit the ordinals are ordered as the
/// magnitudes are; among numbers with the sign bit, the other way round; and
/// no number with the sign bit lies above one without.
pub proof fn lemma_ordinal_order(a: u32, b: u32)
    requires
        is_number(a),
        is_number(b),
    ensures
        !sign_set(a) && !sign_set(b) ==> (ordinal_of(a) < ordinal_of(b) <==> magnitude(a)
            < magnitude(b)),
        sign_set(a) && sign_set(b) ==> (ordinal_of(a) < ordinal_of(b) <==> magnitude(a)
            > magnitude(b)),
        sign_set(a) && !sign_set(b) ==> ordinal_of(a) <= ordinal_of(b),
        ordinal_of(a) == ordinal_of(b) <==> magnitude(a) == magnitude(b) && (sign_set(a)
            == sign_set(b) || magnitude(a) == 0),
{
}

/// A pattern that is not a number lies below every number.
pub proof fn lemma_not_a_number_is_least(a: u32, b: u32)
    requires
        !is_number(a),
        is_number(b),
    ensures
        ordinal_of(a) < ordinal_of(b),
{
}

/// Going from a number to its ordinal and back gives the number again,
/// except that the negative zero comes back as the positive zero.
pub proof fn lemma_bits_round_trip(bits: u32)
    requires
        is_number(bits),
    ensures
        magnitude(bits) != 0 || !sign_set(bits) ==> bits_of(ordinal_of(bits)) == bits,
        magnitude(bits) == 0 ==> bits_of(ordinal_of(bits)) == 0,
{
    let m = magnitude(bits);
    assert(m == bits & 0x7fff_ffffu32);
    if bits & 0x8000_0000u32 != 0 {
        assert((bits & 0x7fff_ffffu32) | 0x8000_0000u32 == bits) by (bit_vector)
            requires
                bits & 0x8000_0000u32 != 0,
        ;
        if m != 0 {
            assert((-(m as int)) as i64 as int == -(m as int));
            assert((-((-(m as int)) as i64 as int)) as u32 == m);
        }
    } else {
        assert(bits & 0x7fff_ffffu32 == bits) by (bit_vector)
            requires
                bits & 0x8000_0000u32 == 0,
        ;
    }
}

/// Going from an ordinal to its bit pattern and back gives the ordinal
/// again, and the pattern is a number exactly when the ordinal is in range.
pub proof fn lemma_ordinal_round_trip(ordinal: i64)
    requires
        has_pattern(ordinal),
    ensures
        is_number(bits_of(ordinal)) <==> in_range(ordinal),
        ordinal_of(bits_of(ordinal)) == ordinal,
{
    if ordinal == NOT_A_NUMBER {
        assert(0x7fc0_0000u32 & 0x7fff_ffffu32 == 0x7fc0_0000u32) by (bit_vector);
    } else if ordinal >= 0 {
        let b = ordinal as u32;
        assert(b & 0x7fff_ffffu32 == b && b & 0x8000_0000u32 == 0) by (bit_vector)
            requires
                b <= 0x7f80_0000u32,
        ;
    } else {
        let m = (-(ordinal as int)) as u32;
        assert((m | 0x8000_0000u32) & 0x7fff_ffffu32 == m && (m | 0x8000_0000u32) & 0x8000_0000u32
            != 0) by (bit_vector)
            requires
                m <= 0x7f80_0000u32,
        ;
    }
}

} // verus!
