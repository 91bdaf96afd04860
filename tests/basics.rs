use hue_mosaic::chars::{_uppercase2, is_alphanumeric, max, uppercase};
use hue_mosaic::expr::{eval, Expr};

#[test]
fn eval_adds() {
    assert_eq!(eval(Expr::Add(40, 2)), Some(42));
}

#[test]
fn eval_other_operations() {
    assert_eq!(eval(Expr::Null), None);
    assert_eq!(eval(Expr::Sub(3, 5)), Some(-2));
    assert_eq!(eval(Expr::Mul(-4, 6)), Some(-24));
    assert_eq!(eval(Expr::Val(9)), Some(9));
    assert_eq!(eval(Expr::Div { dividend: 10, divisor: 2 }), Some(5));
    assert_eq!(eval(Expr::Div { dividend: -7, divisor: 2 }), Some(-3));
    assert_eq!(eval(Expr::Div { dividend: 10, divisor: 0 }), None);
}

#[test]
fn uppercase_letters_only() {
    assert_eq!(uppercase(b'a'), b'A');
    assert_eq!(uppercase(b'S'), b'S');
    assert_eq!(uppercase(b'z'), b'Z');
    assert_eq!(uppercase(b'{'), b'{');
    assert_eq!(_uppercase2(b'q'), b'Q');
    assert_eq!(_uppercase2(b'0'), b'0');
}

#[test]
fn alphanumeric_classes() {
    assert!(!is_alphanumeric('-'));
    assert!(is_alphanumeric('a'));
    assert!(is_alphanumeric('Z'));
    assert!(is_alphanumeric('5'));
    assert!(!is_alphanumeric('\u{e9}'));
}

#[test]
fn max_picks_greater() {
    assert_eq!(max('a', 'z'), 'z');
    assert_eq!(max(7, 3), 7);
    assert_eq!(max(2, 2), 2);
}
