use looper_processor::fixed::{Fixed, Fraction, Position, ONE, POSITION_MAX};

#[test]
fn test_fixed_from_int_scales_by_one() {
    assert_eq!(Fixed::from_int(1).raw(), ONE as i64);
    assert_eq!(Fixed::from_int(-3).raw(), -3 * ONE as i64);
    assert_eq!(Fixed::from_int(i32::MIN).raw(), i64::MIN);
    assert_eq!(Fixed::from_raw(17).raw(), 17);
}

#[test]
fn test_fixed_from_ratio_rounds_down() {
    assert_eq!(Fixed::from_ratio(1, 2).unwrap().raw(), (ONE / 2) as i64);
    assert_eq!(Fixed::from_ratio(1, 100).unwrap().raw(), 42949672);
    assert_eq!(Fixed::from_ratio(-1, 100).unwrap().raw(), -42949673);
    assert_eq!(Fixed::from_ratio(-4, 2).unwrap().raw(), -2 * ONE as i64);
    assert_eq!(Fixed::from_ratio(0, 7).unwrap().raw(), 0);
    assert!(Fixed::from_ratio(1, 0).is_none());
}

#[test]
fn test_fraction_bounds() {
    assert_eq!(Fraction::zero().raw(), 0);
    assert_eq!(Fraction::one().raw(), ONE);
    assert_eq!(Fraction::new(ONE).unwrap().raw(), ONE);
    assert!(Fraction::new(ONE + 1).is_none());
}

#[test]
fn test_fraction_from_ratio() {
    assert_eq!(Fraction::from_ratio(1, 2).unwrap().raw(), ONE / 2);
    assert_eq!(Fraction::from_ratio(1, 3).unwrap().raw(), 1431655765);
    assert_eq!(Fraction::from_ratio(5, 5).unwrap().raw(), ONE);
    assert_eq!(Fraction::from_ratio(u64::MAX, u64::MAX).unwrap().raw(), ONE);
    assert!(Fraction::from_ratio(3, 2).is_none());
    assert!(Fraction::from_ratio(0, 0).is_none());
}

#[test]
fn test_position_parts() {
    let position = Position::new(7, 0x4000_0000);
    assert_eq!(position.raw(), 7 * ONE as u128 + 0x4000_0000);
    assert_eq!(position.whole(), 7);
    assert_eq!(position.part().raw(), ONE / 4);
}

#[test]
fn test_position_bounds() {
    assert_eq!(Position::new(u64::MAX, u32::MAX).raw(), POSITION_MAX);
    assert_eq!(Position::from_raw(POSITION_MAX).unwrap().whole(), u64::MAX);
    assert!(Position::from_raw(POSITION_MAX + 1).is_none());
}
