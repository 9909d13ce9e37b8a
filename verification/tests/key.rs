use nearest_neighbor::key::{distance_key, distance_keys, INFINITY_BITS, MAGNITUDE_BITS};

#[test]
fn key_constants_are_those_of_binary64() {
    assert_eq!(INFINITY_BITS, f64::INFINITY.to_bits());
    assert_eq!(MAGNITUDE_BITS, u64::MAX >> 1);
}

#[test]
fn key_of_distance_is_its_bit_pattern() {
    assert_eq!(distance_key(0.0f64.to_bits()), 0);
    assert_eq!(distance_key(5.0f64.to_bits()), 0x4014_0000_0000_0000);
    assert_eq!(distance_key(f64::INFINITY.to_bits()), 0x7FF0_0000_0000_0000);
}

#[test]
fn key_of_negative_zero_is_that_of_zero() {
    assert_eq!(distance_key((-0.0f64).to_bits()), distance_key(0.0f64.to_bits()));
}

#[test]
fn key_of_what_is_no_number_is_largest() {
    assert_eq!(distance_key(f64::NAN.to_bits()), u64::MAX);
    assert_eq!(distance_key((-f64::NAN).to_bits()), u64::MAX);
    assert_eq!(distance_key(0x7FF0_0000_0000_0001), u64::MAX);
    assert_eq!(distance_key(0xFFFF_FFFF_FFFF_FFFF), u64::MAX);
}

#[test]
fn key_order_is_distance_order() {
    let ds = [
        0.0f64,
        f64::MIN_POSITIVE / 4.0,
        f64::MIN_POSITIVE,
        1.0e-9,
        0.5,
        1.0,
        1.632993161855452,
        5.0,
        1.0e6,
        1.0e300,
        f64::MAX,
        f64::INFINITY,
    ];
    for a in ds.iter() {
        for b in ds.iter() {
            assert_eq!(distance_key(a.to_bits()) < distance_key(b.to_bits()), a < b);
            assert_eq!(distance_key(a.to_bits()) == distance_key(b.to_bits()), a == b);
        }
        assert!(distance_key(a.to_bits()) < distance_key(f64::NAN.to_bits()));
    }
}

#[test]
fn keys_are_taken_place_by_place() {
    let bits = vec![3.0f64.to_bits(), f64::NAN.to_bits(), 0.0f64.to_bits()];
    assert_eq!(distance_keys(&bits), vec![3.0f64.to_bits(), u64::MAX, 0]);
    assert_eq!(distance_keys(&Vec::new()), Vec::<u64>::new());
}
