use ps2_floating_point::Ps2Float;

const WORDS: [u32; 6] = [
    0x40A9999A, // 5.3
    0x00000000, // 0.00
    0x7FFFFFFF, // MAX
    0xFFFFFFFF, // -MAX
    0x7F800000, // INF
    0xFF800000, // -INF
];

#[test]
fn ps2float_new() {
    for value in WORDS {
        let ps2float = Ps2Float::new(value);

        assert_eq!(ps2float.as_u32(), value);
    }
}

#[test]
fn ps2float_from_params() {
    let cases: [(bool, u8, u32, u32); 6] = [
        (false, 0x81, 0x29999A, 0x40A9999A), // 5.3
        (false, 0, 0, 0),                    // 0.00
        (false, 0xFF, 0x7FFFFF, 0x7FFFFFFF), // MAX
        (true, 0xFF, 0x7FFFFF, 0xFFFFFFFF),  // -MAX
        (false, 0xFF, 0, 0x7F800000),        // INF
        (true, 0xFF, 0, 0xFF800000),         // -INF
    ];
    for (sign, exponent, mantissa, expected) in cases {
        let ps2float = Ps2Float::from_params(sign, exponent, mantissa);

        assert_eq!(ps2float.as_u32(), expected);
    }
}

#[test]
fn new_splits_the_word_into_fields() {
    let value = Ps2Float::new(0x40A9999A);
    assert_eq!(value.sign, false);
    assert_eq!(value.exponent, 0x81);
    assert_eq!(value.mantissa, 0x29999A);

    let value = Ps2Float::new(0xC0A9999A);
    assert_eq!(value.sign, true);
    assert_eq!(value.exponent, 0x81);
    assert_eq!(value.mantissa, 0x29999A);

    let value = Ps2Float::new(0x807FFFFF);
    assert_eq!(value.sign, true);
    assert_eq!(value.exponent, 0);
    assert_eq!(value.mantissa, 0x7FFFFF);
}

#[test]
fn round_trip_of_single_bits_and_their_complements() {
    for position in 0..32 {
        let word = 1u32 << position;
        assert_eq!(Ps2Float::new(word).as_u32(), word);
        assert_eq!(Ps2Float::new(!word).as_u32(), !word);
    }
}

#[test]
fn round_trip_over_a_stride_of_words() {
    let mut word: u32 = 0;
    for _ in 0..100_000 {
        assert_eq!(Ps2Float::new(word).as_u32(), word);
        word = word.wrapping_mul(1_664_525).wrapping_add(1_013_904_223);
    }
}

#[test]
fn round_trip_of_canonical_fields() {
    for (sign, exponent, mantissa) in
        [(false, 0u8, 0u32), (true, 1, 1), (false, 0x7F, 0x400000), (true, 0xFF, 0x7FFFFF)]
    {
        let value = Ps2Float::from_params(sign, exponent, mantissa);
        assert_eq!(Ps2Float::new(value.as_u32()), value);
    }
}

#[test]
fn from_params_keeps_the_fields_as_given() {
    let value = Ps2Float::from_params(true, 0x12, 0xFFFF_FFFF);
    assert_eq!(value.sign, true);
    assert_eq!(value.exponent, 0x12);
    assert_eq!(value.mantissa, 0xFFFF_FFFF);
    assert_eq!(value, Ps2Float { sign: true, exponent: 0x12, mantissa: 0xFFFF_FFFF });
}

#[test]
fn as_u32_lays_an_oversized_mantissa_over_the_other_fields() {
    assert_eq!(Ps2Float::from_params(false, 0, 0x0080_0000).as_u32(), 0x0080_0000);
    assert_eq!(Ps2Float::from_params(false, 1, 0x8000_0001).as_u32(), 0x8080_0001);
    assert_eq!(Ps2Float::from_params(false, 0x12, 0xFFFF_FFFF).as_u32(), 0xFFFF_FFFF);
}

#[test]
fn max_is_positive_fmax() {
    let max = Ps2Float::max();
    assert_eq!(max.as_u32(), 0x7FFF_FFFF);
    assert_eq!(max, Ps2Float { sign: false, exponent: 0xFF, mantissa: 0x7F_FFFF });
}

#[test]
fn min_is_negative_fmax() {
    let min = Ps2Float::min();
    assert_eq!(min.as_u32(), 0xFFFF_FFFF);
    assert_eq!(min, Ps2Float { sign: true, exponent: 0xFF, mantissa: 0x7F_FFFF });
}

#[test]
fn zero_and_default_are_positive_zero() {
    assert_eq!(Ps2Float::zero().as_u32(), 0);
    assert_eq!(Ps2Float::default().as_u32(), 0);
    assert_eq!(Ps2Float::zero(), Ps2Float { sign: false, exponent: 0, mantissa: 0 });
    assert_eq!(Ps2Float::default(), Ps2Float::zero());
}

#[test]
fn named_encodings() {
    assert_eq!(ps2_floating_point::encoding::MAX_FLOATING_POINT_VALUE, 0x7FFF_FFFF);
    assert_eq!(ps2_floating_point::encoding::MIN_FLOATING_POINT_VALUE, 0xFFFF_FFFF);
    assert_eq!(ps2_floating_point::encoding::POSITIVE_INFINITY_VALUE, 0x7F80_0000);
    assert_eq!(ps2_floating_point::encoding::NEGATIVE_INFINITY_VALUE, 0xFF80_0000);
}

#[test]
fn equality_is_that_of_the_fields() {
    assert_eq!(Ps2Float::new(0x3F80_0000), Ps2Float::from_params(false, 0x7F, 0));
    assert_ne!(Ps2Float::new(0), Ps2Float::new(0x8000_0000));
    let copy = Ps2Float::new(0x1234_5678);
    let other = copy;
    assert_eq!(copy, other);
    assert_eq!(copy.clone(), other);
}
