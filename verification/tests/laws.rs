use ps2_floating_point::Ps2Float;

/// A stride of word pairs that visits every class of operand.
fn pairs() -> Vec<(u32, u32)> {
    let chosen: [u32; 16] = [
        0x0000_0000,
        0x8000_0000,
        0x0000_0001,
        0x807F_FFFF,
        0x0080_0000,
        0x8080_0001,
        0x00E0_0000,
        0x0BFF_FFFF,
        0x0C00_0000,
        0x3F80_0000,
        0xBF80_0000,
        0x7F7F_FFFF,
        0x7F80_0000,
        0xFF80_0000,
        0x7FFF_FFFF,
        0xFFFF_FFFF,
    ];
    let mut pairs = Vec::new();
    for a in chosen {
        for b in chosen {
            pairs.push((a, b));
        }
    }
    let mut a: u32 = 0x2545_F491;
    let mut b: u32 = 0x9E37_79B9;
    for _ in 0..20_000 {
        pairs.push((a, b));
        // Keep some pairs close together, where differences cancel.
        pairs.push((a, a ^ (b & 0x00FF_FFFF)));
        pairs.push((a & 0x8FFF_FFFF, b & 0x8FFF_FFFF));
        a = a.wrapping_mul(1_664_525).wrapping_add(1_013_904_223);
        b = b.wrapping_mul(22_695_477).wrapping_add(1);
    }
    pairs
}

/// Whether the difference of two decoded words lands under the smallest
/// normal number and over half of it, with the magnitudes counted in units
/// of two to the power -149.
fn cancels_into_denormal(a: &Ps2Float, b: &Ps2Float) -> bool {
    if !(1 <= b.exponent && b.exponent <= a.exponent && a.exponent <= 23) {
        return false;
    }
    let own = 0x80_0000 + a.mantissa as i64;
    let their = (0x80_0000 + b.mantissa as i64) / (1i64 << (a.exponent - b.exponent));
    let difference = (own - their) * (1i64 << (a.exponent - 1));
    0x40_0000 < difference && difference < 0x80_0000
}

#[test]
fn a_difference_is_denormalized_exactly_where_the_operands_cancel_into_one() {
    let mut seen = 0;
    for (a, b) in pairs() {
        let x = Ps2Float::new(a);
        let y = Ps2Float::new(b);
        if !x.combines_with(&y) {
            continue;
        }
        let r = x.sub(&y);
        let denormal = r.exponent == 0 && r.mantissa != 0;
        assert_eq!(denormal, cancels_into_denormal(&x, &y), "{:#X} {:#X}", a, b);
        if denormal {
            seen += 1;
        }
    }
    assert!(seen > 0);
}

#[test]
fn a_sum_is_denormalized_exactly_where_signs_differ_and_the_operands_cancel_into_one() {
    let mut seen = 0;
    for (a, b) in pairs() {
        let x = Ps2Float::new(a);
        let y = Ps2Float::new(b);
        if !x.combines_with(&y) {
            continue;
        }
        let r = x.add(&y);
        let denormal = r.exponent == 0 && r.mantissa != 0;
        let expected = x.sign != y.sign && cancels_into_denormal(&x, &y);
        assert_eq!(denormal, expected, "{:#X} {:#X}", a, b);
        if denormal {
            seen += 1;
        }
    }
    assert!(seen > 0);
}

#[test]
fn add_commutes_exactly_for_one_sign_or_two_zeros() {
    for (a, b) in pairs() {
        let x = Ps2Float::new(a);
        let y = Ps2Float::new(b);
        if !x.combines_with(&y) || !y.combines_with(&x) {
            continue;
        }
        let commutes = x.add(&y).as_u32() == y.add(&x).as_u32();
        let expected = x.sign == y.sign || (x.is_zero() && y.is_zero());
        assert_eq!(commutes, expected, "{:#X} {:#X}", a, b);
    }
}

#[test]
fn a_difference_of_operands_equal_in_the_order_is_zero() {
    for (a, _) in pairs() {
        let x = Ps2Float::new(a);
        let r = x.sub(&x);
        assert_eq!(r.as_u32() & 0x7FFF_FFFF, 0, "{:#X}", a);
    }
    let positive = Ps2Float::new(0x0000_0000);
    let negative = Ps2Float::new(0x8000_0000);
    assert_eq!(positive.sub(&negative).as_u32() & 0x7FFF_FFFF, 0);
    assert_eq!(negative.sub(&positive).as_u32() & 0x7FFF_FFFF, 0);
}

#[test]
fn a_sum_of_zeros_is_negative_only_for_two_negative_zeros() {
    let positive = Ps2Float::new(0x0000_0000);
    let negative = Ps2Float::new(0x8000_0000);
    assert_eq!(positive.add(&positive).as_u32(), 0x0000_0000);
    assert_eq!(positive.add(&negative).as_u32(), 0x0000_0000);
    assert_eq!(negative.add(&positive).as_u32(), 0x0000_0000);
    assert_eq!(negative.add(&negative).as_u32(), 0x8000_0000);
}

#[test]
fn results_are_canonical() {
    for (a, b) in pairs() {
        let x = Ps2Float::new(a);
        let y = Ps2Float::new(b);
        if !x.combines_with(&y) {
            continue;
        }
        let sum = x.add(&y);
        let difference = x.sub(&y);
        assert_eq!(Ps2Float::new(sum.as_u32()), sum);
        assert_eq!(Ps2Float::new(difference.as_u32()), difference);
    }
}
