//! Keys for distances that are kept as IEEE-754 binary64 numbers.
//!
//! A distance is never negative, and among numbers that are not negative the
//! order of the bit patterns, read as unsigned integers, is the order of the
//! numbers. So a distance travels as its bit pattern. What is not a number
//! has no place in that order: it is put behind every distance, infinity
//! included, so that a row at such a distance wins only where no row is at
//! a distance that is a number.

use vstd::prelude::*;

verus! {

/// The bits of a binary64 pattern below its sign bit.
pub const MAGNITUDE_BITS: u64 = 0x7FFF_FFFF_FFFF_FFFF;

/// The pattern of positive infinity: every exponent bit set, no fraction bit.
pub const INFINITY_BITS: u64 = 0x7FF0_0000_0000_0000;

/// The pattern stands for no number: its exponent bits are all set and some
/// fraction bit is.
pub open spec fn not_a_number(bits: u64) -> bool {
    bits & MAGNITUDE_BITS > INFINITY_BITS
}

/// The key of a pattern: its magnitude, or the largest key where the pattern
/// stands for no number.
pub open spec fn key_of(bits: u64) -> u64 {
    if not_a_number(bits) {
        u64::MAX
    } else {
        bits & MAGNITUDE_BITS
    }
}

/// Among patterns of numbers that are not negative, infinity included, the
/// key is the pattern, so the keys are in the order of the patterns.
pub proof fn lemma_key_keeps_order(a: u64, b: u64)
    requires
        a <= INFINITY_BITS,
        b <= INFINITY_BITS,
    ensures
        key_of(a) == a,
        key_of(b) == b,
        key_of(a) < key_of(b) <==> a < b,
{
    assert(a <= INFINITY_BITS ==> a & MAGNITUDE_BITS == a) by (bit_vector);
    assert(b <= INFINITY_BITS ==> b & MAGNITUDE_BITS == b) by (bit_vector);
}

/// What is no number comes behind every number, and the sign of a number
/// does not enter its key.
pub proof fn lemma_no_number_is_last(a: u64, b: u64)
    requires
        not_a_number(a),
        !not_a_number(b),
    ensures
        key_of(b) < key_of(a),
        key_of(b) <= INFINITY_BITS,
        key_of(b) == key_of(b & MAGNITUDE_BITS),
{
    assert((b & MAGNITUDE_BITS) & MAGNITUDE_BITS == b & MAGNITUDE_BITS) by (bit_vector);
}

/// The key under which a distance with the given bit pattern is compared.
pub fn distance_key(bits: u64) -> (key: u64)
    ensures
        key == key_of(bits),
        !not_a_number(bits) ==> key <= INFINITY_BITS,
        bits <= INFINITY_BITS ==> key == bits,
{
    let magnitude: u64 = bits & MAGNITUDE_BITS;
    assert(bits <= INFINITY_BITS ==> bits & MAGNITUDE_BITS == bits) by (bit_vector);
    if magnitude > INFINITY_BITS {
        u64::MAX
    } else {
        magnitude
    }
}

/// The keys of a row of distances, place by place.
pub fn distance_keys(bits: &Vec<u64>) -> (keys: Vec<u64>)
    ensures
        keys@ == bits@.map_values(|b: u64| key_of(b)),
{
    let mut keys: Vec<u64> = Vec::new();
    let mut i: usize = 0;
    while i < bits.len()
        invariant
            i <= bits.len(),
            keys@ == bits@.take(i as int).map_values(|b: u64| key_of(b)),
        decreases bits.len() - i,
    {
        keys.push(distance_key(bits[i]));
        proof {
            assert(bits@.take(i + 1) == bits@.take(i as int).push(bits@[i as int]));
            assert(keys@ =~= bits@.take(i + 1).map_values(|b: u64| key_of(b)));
        }
        i += 1;
    }
    proof {
        assert(bits@.take(bits.len() as int) == bits@);
    }
    keys
}

} // verus!
