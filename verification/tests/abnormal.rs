use ps2_floating_point::Ps2Float;

const ZERO: u32 = 0x0000_0000;
const MAX: u32 = 0x7FFF_FFFF;
const MIN: u32 = 0xFFFF_FFFF;
const INF: u32 = 0x7F80_0000;
const NEG_INF: u32 = 0xFF80_0000;

/// Each row: the two operands, their sum and their difference.
const TABLE: [(u32, u32, u32, u32); 7] = [
    (MAX, MAX, MAX, ZERO),
    (MIN, MIN, MIN, ZERO),
    (MIN, MAX, MAX, MIN),
    (MAX, MIN, ZERO, MAX),
    (INF, INF, MAX, ZERO),
    (NEG_INF, INF, ZERO, MIN),
    (NEG_INF, NEG_INF, MIN, ZERO),
];

fn solve(a: u32, b: u32, add: bool) -> u32 {
    let a = Ps2Float::new(a);
    let b = Ps2Float::new(b);
    assert!(Ps2Float::is_listed_abnormal_pair(&a, &b));
    Ps2Float::solve_abnormal_addition_or_subtraction_operation(&a, &b, add).as_u32()
}

#[test]
fn abnormal_sums_follow_the_table() {
    for (a, b, sum, _) in TABLE {
        assert_eq!(solve(a, b, true), sum, "{:#X} + {:#X}", a, b);
    }
}

#[test]
fn abnormal_differences_follow_the_table() {
    for (a, b, _, difference) in TABLE {
        assert_eq!(solve(a, b, false), difference, "{:#X} - {:#X}", a, b);
    }
}

#[test]
fn abnormal_outcomes_are_canonical() {
    for (a, b, _, _) in TABLE {
        for add in [true, false] {
            let a = Ps2Float::new(a);
            let b = Ps2Float::new(b);
            let r = Ps2Float::solve_abnormal_addition_or_subtraction_operation(&a, &b, add);
            assert_eq!(Ps2Float::new(r.as_u32()), r);
        }
    }
}

#[test]
fn the_table_lists_seven_of_the_sixteen_pairs() {
    let abnormal = [MAX, MIN, INF, NEG_INF];
    for a in abnormal {
        for b in abnormal {
            let listed = TABLE.iter().any(|row| row.0 == a && row.1 == b);
            assert_eq!(
                Ps2Float::is_listed_abnormal_pair(&Ps2Float::new(a), &Ps2Float::new(b)),
                listed,
                "{:#X} {:#X}",
                a,
                b
            );
        }
    }
}

#[test]
fn the_table_lists_no_other_pair() {
    for (a, b) in [(ZERO, ZERO), (MAX, ZERO), (ZERO, MAX), (0x3F80_0000, INF), (MAX, 0x7FFF_FFFE)] {
        assert!(!Ps2Float::is_listed_abnormal_pair(&Ps2Float::new(a), &Ps2Float::new(b)));
    }
}
