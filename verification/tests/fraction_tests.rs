use liquidity_swap::fraction::Fraction;

#[test]
fn valid() {
    let _ = Fraction::new(0, 1);
    let _ = Fraction::new(1, 1);
    let _ = Fraction::new(5, 51);
}

#[test]
fn eq() {
    assert_eq!(Fraction::new(0, 1), Fraction::new(0, 8));
    assert_eq!(Fraction::new(1, 1), Fraction::new(8, 8));
    assert_eq!(Fraction::new(1, 2), Fraction::new(4, 8));
    assert_eq!(Fraction::new(1, 7), Fraction::new(3, 21));
}

#[test]
fn lt() {
    assert!(Fraction::new(0, 1) < Fraction::new(1, 8));
    assert!(Fraction::new(0, 1) < Fraction::new(1, 1));
    assert!(Fraction::new(0, 1001) < Fraction::new(1, 1));
    assert!(Fraction::new(500, 1001) < Fraction::new(1, 2));
}
