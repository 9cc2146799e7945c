use payments_ledger::amount::Amount;

const LIMIT: i128 = 79_228_162_514_264_337_593_543_950_336;

fn amount(mantissa: i128, scale: u32) -> Amount {
    Amount::new(mantissa, scale).expect("a representable amount")
}

fn parts(a: Amount) -> (i128, u32) {
    (a.mantissa(), a.scale())
}

fn pow10(digits: u32) -> i128 {
    let mut r: i128 = 1;
    for _ in 0..digits {
        r *= 10;
    }
    r
}

/// The unrounded sum or difference, where it can be stored.
fn exact(a: (i128, u32), b: (i128, u32), subtract: bool) -> Option<(i128, u32)> {
    let b = if subtract { (-b.0, b.1) } else { b };
    if a.0 == 0 {
        return Some(b);
    }
    if b.0 == 0 {
        return Some(a);
    }
    let scale = a.1.max(b.1);
    let x = a.0.checked_mul(pow10(scale - a.1))?;
    let y = b.0.checked_mul(pow10(scale - b.1))?;
    let sum = x.checked_add(y)?;
    if -LIMIT < sum && sum < LIMIT {
        Some((sum, scale))
    } else {
        None
    }
}

#[test]
fn new_accepts_exactly_the_representable() {
    assert!(Amount::new(0, 0).is_some());
    assert!(Amount::new(LIMIT - 1, 28).is_some());
    assert!(Amount::new(-(LIMIT - 1), 0).is_some());
    assert!(Amount::new(LIMIT, 0).is_none());
    assert!(Amount::new(-LIMIT, 0).is_none());
    assert!(Amount::new(1, 29).is_none());
    assert_eq!(parts(amount(-1234, 3)), (-1234, 3));
    assert_eq!(parts(Amount::zero()), (0, 0));
    assert_eq!(parts(Amount::from(-7)), (-7, 0));
}

#[test]
fn whole_numbers_add_exactly() {
    let sum = Amount::from(10).checked_add(Amount::from(5)).unwrap();
    assert_eq!(parts(sum), (15, 0));
    let difference = Amount::from(10).checked_sub(Amount::from(15)).unwrap();
    assert_eq!(parts(difference), (-5, 0));
}

#[test]
fn sums_take_the_larger_scale() {
    assert_eq!(parts(amount(15, 1).checked_add(amount(225, 2)).unwrap()), (375, 2));
    assert_eq!(parts(amount(225, 2).checked_sub(amount(15, 1)).unwrap()), (75, 2));
    assert_eq!(parts(amount(150, 2).checked_sub(amount(15, 1)).unwrap()), (0, 2));
    assert_eq!(parts(amount(110, 2).checked_add(amount(110, 2)).unwrap()), (220, 2));
}

#[test]
fn a_zero_operand_leaves_the_other_as_it_is() {
    assert_eq!(parts(amount(0, 2).checked_add(amount(5, 0)).unwrap()), (5, 0));
    assert_eq!(parts(amount(5, 0).checked_add(amount(0, 2)).unwrap()), (5, 0));
    assert_eq!(parts(amount(5, 0).checked_sub(amount(0, 2)).unwrap()), (5, 0));
    assert_eq!(parts(amount(0, 0).checked_sub(amount(150, 2)).unwrap()), (-150, 2));
    assert_eq!(parts(amount(0, 3).checked_add(amount(0, 1)).unwrap()), (0, 1));
    assert_eq!(parts(amount(0, 3).checked_sub(amount(0, 1)).unwrap()), (0, 1));
}

#[test]
fn sums_at_the_edge_of_the_mantissa() {
    let big = amount(7_922_816_251_426_433_759_354_395_034, 0);
    assert_eq!(parts(big.checked_add(amount(-5, 1)).unwrap()), (LIMIT - 1, 1));
    assert_eq!(parts(big.checked_sub(amount(5, 1)).unwrap()), (LIMIT - 1, 1));
    let max = amount(LIMIT - 1, 0);
    assert!(max.checked_add(Amount::from(1)).is_none());
    assert!(amount(-(LIMIT - 1), 0).checked_sub(Amount::from(1)).is_none());
    assert_eq!(parts(max.checked_sub(max).unwrap()), (0, 0));
    assert_eq!(parts(max.checked_sub(Amount::from(1)).unwrap()), (LIMIT - 2, 0));
}

#[test]
fn sums_that_cannot_be_stored_are_rounded() {
    let max = amount(LIMIT - 1, 0);
    let rounded = max.checked_add(amount(4, 1)).unwrap();
    assert_eq!(parts(rounded), (LIMIT - 1, 0));
}

#[test]
fn unrounded_results_on_a_grid() {
    let mantissas: [i128; 14] = [
        0,
        1,
        -1,
        5,
        99,
        -250,
        4_294_967_295,
        4_294_967_296,
        -18_446_744_073_709_551_615,
        18_446_744_073_709_551_616,
        7_922_816_251_426_433_759_354_395_034,
        -7_922_816_251_426_433_759_354_395_033,
        LIMIT - 1,
        -(LIMIT - 1),
    ];
    let scales: [u32; 7] = [0, 1, 2, 4, 9, 19, 28];
    let mut checked = 0;
    for &m1 in mantissas.iter() {
        for &s1 in scales.iter() {
            for &m2 in mantissas.iter() {
                for &s2 in scales.iter() {
                    let a = amount(m1, s1);
                    let b = amount(m2, s2);
                    if let Some(expected) = exact((m1, s1), (m2, s2), false) {
                        assert_eq!(a.checked_add(b).map(parts), Some(expected));
                        checked += 1;
                    }
                    if let Some(expected) = exact((m1, s1), (m2, s2), true) {
                        assert_eq!(a.checked_sub(b).map(parts), Some(expected));
                        checked += 1;
                    }
                }
            }
        }
    }
    assert!(checked > 5000);
}

#[test]
fn unrounded_results_on_scattered_values() {
    let mut state: u64 = 0x2545_F491_4F6C_DD1D;
    let mut next = move || {
        state ^= state << 13;
        state ^= state >> 7;
        state ^= state << 17;
        state
    };
    let mut checked = 0;
    for _ in 0..20_000 {
        let bits1 = (next() % 97) as u32;
        let bits2 = (next() % 97) as u32;
        let raw1 = ((next() as u128) << 64 | next() as u128) & ((1u128 << bits1) - 1);
        let raw2 = ((next() as u128) << 64 | next() as u128) & ((1u128 << bits2) - 1);
        let m1 = if next() % 2 == 0 { raw1 as i128 } else { -(raw1 as i128) };
        let m2 = if next() % 2 == 0 { raw2 as i128 } else { -(raw2 as i128) };
        let s1 = (next() % 29) as u32;
        let s2 = (next() % 29) as u32;
        let a = amount(m1, s1);
        let b = amount(m2, s2);
        let sum = a.checked_add(b);
        let difference = a.checked_sub(b);
        if let Some(c) = sum {
            assert!(Amount::new(c.mantissa(), c.scale()).is_some());
        }
        if let Some(expected) = exact((m1, s1), (m2, s2), false) {
            assert_eq!(sum.map(parts), Some(expected));
            checked += 1;
        }
        if let Some(expected) = exact((m1, s1), (m2, s2), true) {
            assert_eq!(difference.map(parts), Some(expected));
            checked += 1;
        }
    }
    assert!(checked > 1000);
}

#[test]
fn comparison_is_by_value() {
    assert!(amount(15, 1).less_than(&amount(2, 0)));
    assert!(!amount(2, 0).less_than(&amount(15, 1)));
    assert!(!amount(10, 1).less_than(&amount(1, 0)));
    assert!(amount(-3, 0).less_than(&amount(0, 5)));
    assert!(amount(-30, 1).less_than(&amount(-299, 2)));
    assert!(amount(1, 28).less_than(&amount(LIMIT - 1, 0)));
    assert!(!amount(LIMIT - 1, 0).less_than(&amount(LIMIT - 1, 28)));
}

#[test]
fn equality_is_by_value() {
    assert_eq!(amount(10, 1), amount(1, 0));
    assert_eq!(amount(0, 7), Amount::zero());
    assert_eq!(amount(-2500, 3), amount(-25, 1));
    assert_ne!(amount(1, 0), amount(2, 0));
    assert_ne!(amount(1, 0), amount(1, 1));
    assert_ne!(amount(5, 0), amount(-5, 0));
}

#[test]
fn rescale_rounds_half_away_from_zero() {
    assert_eq!(parts(amount(145, 2).rescale(1)), (15, 1));
    assert_eq!(parts(amount(144, 2).rescale(1)), (14, 1));
    assert_eq!(parts(amount(-145, 2).rescale(1)), (-15, 1));
    assert_eq!(parts(amount(-144, 2).rescale(1)), (-14, 1));
    assert_eq!(parts(amount(1449, 3).rescale(1)), (14, 1));
    assert_eq!(parts(amount(123_456_789, 8).rescale(4)), (12_346, 4));
    assert_eq!(parts(amount(123_454_999, 8).rescale(4)), (12_345, 4));
    assert_eq!(parts(amount(5, 5).rescale(4)), (1, 4));
    assert_eq!(parts(amount(4, 5).rescale(4)), (0, 4));
    assert_eq!(parts(amount(-4, 5).rescale(4)), (0, 4));
    assert_eq!(parts(amount(1, 28).rescale(0)), (0, 0));
    assert_eq!(parts(amount(LIMIT - 1, 28).rescale(0)), (8, 0));
    assert_eq!(parts(amount(LIMIT - 1, 1).rescale(0)), (7_922_816_251_426_433_759_354_395_034, 0));
}

#[test]
fn rescale_adds_the_digits_that_fit() {
    assert_eq!(parts(amount(1123, 3).rescale(6)), (1_123_000, 6));
    assert_eq!(parts(Amount::from(2).rescale(4)), (20_000, 4));
    assert_eq!(parts(amount(-5, 0).rescale(4)), (-50_000, 4));
    assert_eq!(parts(amount(7, 4).rescale(4)), (7, 4));
    assert_eq!(parts(amount(0, 9).rescale(4)), (0, 4));
    assert_eq!(parts(amount(0, 0).rescale(28)), (0, 28));
    assert_eq!(
        parts(amount(1_176_470_588_235_294, 14).rescale(28)),
        (11_764_705_882_352_940_000_000_000_000, 27)
    );
    assert_eq!(parts(amount(LIMIT - 1, 0).rescale(4)), (LIMIT - 1, 0));
    assert_eq!(
        parts(amount(7_922_816_251_426_433_759_354_395, 0).rescale(4)),
        (79_228_162_514_264_337_593_543_950_000, 4)
    );
    assert_eq!(
        parts(amount(7_922_816_251_426_433_759_354_396, 0).rescale(4)),
        (7_922_816_251_426_433_759_354_396_000, 3)
    );
    assert_eq!(
        parts(amount(-7_922_816_251_426_433_759_354_396, 1).rescale(28)),
        (-7_922_816_251_426_433_759_354_396_000, 4)
    );
    assert_eq!(parts(amount(1, 0).rescale(28)), (10_000_000_000_000_000_000_000_000_000, 28));
}
