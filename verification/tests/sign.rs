use ps2_floating_point::Ps2Float;

const POSITIVE_ZERO: u32 = 0x0000_0000;
const NEGATIVE_ZERO: u32 = 0x8000_0000;

fn addition_sign(a: u32, b: u32) -> bool {
    Ps2Float::determine_addition_operation_sign(&Ps2Float::new(a), &Ps2Float::new(b))
}

fn subtraction_sign(a: u32, b: u32) -> bool {
    Ps2Float::determine_subtraction_operation_sign(&Ps2Float::new(a), &Ps2Float::new(b))
}

#[test]
fn addition_of_zeros_is_negative_only_for_two_negative_zeros() {
    assert_eq!(addition_sign(POSITIVE_ZERO, POSITIVE_ZERO), false);
    assert_eq!(addition_sign(POSITIVE_ZERO, NEGATIVE_ZERO), false);
    assert_eq!(addition_sign(NEGATIVE_ZERO, POSITIVE_ZERO), false);
    assert_eq!(addition_sign(NEGATIVE_ZERO, NEGATIVE_ZERO), true);
}

#[test]
fn addition_takes_the_sign_of_the_first_operand() {
    assert_eq!(addition_sign(0x3F80_0000, 0xBF80_0000), false);
    assert_eq!(addition_sign(0xBF80_0000, 0x3F80_0000), true);
    assert_eq!(addition_sign(NEGATIVE_ZERO, 0x3F80_0000), true);
    assert_eq!(addition_sign(0x3F80_0000, NEGATIVE_ZERO), false);
    assert_eq!(addition_sign(0x8000_0001, POSITIVE_ZERO), true);
    assert_eq!(addition_sign(POSITIVE_ZERO, 0x8000_0001), false);
}

#[test]
fn subtraction_of_zeros_is_negative_only_for_negative_minus_positive() {
    assert_eq!(subtraction_sign(POSITIVE_ZERO, POSITIVE_ZERO), false);
    assert_eq!(subtraction_sign(POSITIVE_ZERO, NEGATIVE_ZERO), false);
    assert_eq!(subtraction_sign(NEGATIVE_ZERO, POSITIVE_ZERO), true);
    assert_eq!(subtraction_sign(NEGATIVE_ZERO, NEGATIVE_ZERO), false);
}

#[test]
fn subtraction_below_the_second_operand_takes_its_opposite_sign() {
    // 1 - 3 is negative; -3 - -1 comes out positive, against the sign of
    // -1.
    assert_eq!(subtraction_sign(0x3F80_0000, 0x4040_0000), true);
    assert_eq!(subtraction_sign(0xC040_0000, 0xBF80_0000), false);
    // -1 - 3: the first operand is the lesser one, and 3 is positive.
    assert_eq!(subtraction_sign(0xBF80_0000, 0x4040_0000), true);
    // 0 - 1 and 0 - Inf.
    assert_eq!(subtraction_sign(POSITIVE_ZERO, 0x3F80_0000), true);
    assert_eq!(subtraction_sign(POSITIVE_ZERO, 0x7F80_0000), true);
}

#[test]
fn subtraction_from_the_greater_or_equal_operand_takes_its_sign() {
    assert_eq!(subtraction_sign(0x4040_0000, 0x3F80_0000), false);
    assert_eq!(subtraction_sign(0x3F80_0000, 0x3F80_0000), false);
    assert_eq!(subtraction_sign(0xBF80_0000, 0xBF80_0000), true);
    assert_eq!(subtraction_sign(0xBF80_0000, 0xC040_0000), true);
    assert_eq!(subtraction_sign(0x3F80_0000, 0xBF80_0000), false);
    assert_eq!(subtraction_sign(0x3F80_0000, POSITIVE_ZERO), false);
}
