//! A tiny arithmetic expression over two 32-bit operands.
use vstd::prelude::*;

verus! {

/// One arithmetic operation on two operands, a constant, or no value.
pub enum Expr {
    Null,
    Add(i32, i32),
    Sub(i32, i32),
    Mul(i32, i32),
    Div { dividend: i32, divisor: i32 },
    Val(i32),
}

/// Whether evaluating `e` stays inside the range of `i32`.
pub open spec fn fits_i32(e: Expr) -> bool {
    match e {
        Expr::Add(x, y) => i32::MIN <= x + y <= i32::MAX,
        Expr::Sub(x, y) => i32::MIN <= x - y <= i32::MAX,
        Expr::Mul(x, y) => i32::MIN <= x * y <= i32::MAX,
        Expr::Div { dividend, divisor } => !(dividend == i32::MIN && divisor == -1),
        _ => true,
    }
}

/// `a / b` rounded toward zero, as Rust's integer division does.
pub open spec fn truncated_div(a: int, b: int) -> int {
    let q: int = vstd::math::abs(a) as int / vstd::math::abs(b) as int;
    if (a < 0) == (b < 0) {
        q
    } else {
        -q
    }
}

/// The value of `e`: none for `Null` and for a division by zero; a division
/// truncates toward zero.
pub open spec fn eval_spec(e: Expr) -> Option<int> {
    match e {
        Expr::Null => None,
        Expr::Add(x, y) => Some(x + y),
        Expr::Sub(x, y) => Some(x - y),
        Expr::Mul(x, y) => Some(x * y),
        Expr::Div { dividend, divisor } => if divisor == 0 {
            None
        } else {
            Some(truncated_div(dividend as int, divisor as int))
        },
        Expr::Val(x) => Some(x as int),
    }
}

proof fn lemma_quotient_fits(x: int, d: int)
    requires
        i32::MIN <= x <= i32::MAX,
        i32::MIN <= d <= i32::MAX,
        d != 0,
        !(x == i32::MIN && d == -1),
    ensures
        x > 0 && d > 0 ==> 0 <= x / d <= x,
        x < 0 && d < 0 ==> 0 <= (x * -1) / (d * -1) <= i32::MAX,
        x < 0 && d > 0 ==> i32::MIN <= ((x * -1) / d) * -1 <= 0,
        x > 0 && d < 0 ==> i32::MIN <= (x / (d * -1)) * -1 <= 0,
{
    if x > 0 && d > 0 {
        assert(0 <= x / d <= x) by (nonlinear_arith)
            requires
                x > 0,
                d > 0,
        ;
    }
    if x < 0 && d < 0 {
        if d == -1 {
            assert((d * -1) == 1);
            assert((x * -1) / 1 == x * -1);
        } else {
            assert(0 <= (x * -1) / (d * -1) <= (x * -1) / 2) by (nonlinear_arith)
                requires
                    x < 0,
                    d <= -2,
            ;
        }
    }
    if x < 0 && d > 0 {
        assert(0 <= (x * -1) / d <= x * -1) by (nonlinear_arith)
            requires
                x < 0,
                d > 0,
        ;
    }
    if x > 0 && d < 0 {
        assert(0 <= x / (d * -1) <= x) by (nonlinear_arith)
            requires
                x > 0,
                d < 0,
        ;
    }
}

/// Evaluates `e`.
pub fn eval(expr: Expr) -> (r: Option<i32>)
    requires
        fits_i32(expr),
    ensures
        r matches Some(v) ==> eval_spec(expr) == Some(v as int),
        r is None <==> eval_spec(expr) is None,
{
    match expr {
        Expr::Null => None,
        Expr::Add(x, y) => Some(x + y),
        Expr::Sub(x, y) => Some(x - y),
        Expr::Mul(x, y) => Some(x * y),
        Expr::Div { divisor: 0, .. } => None,
        Expr::Div { dividend, divisor } => {
            proof {
                lemma_quotient_fits(dividend as int, divisor as int);
            }
            dividend.checked_div(divisor)
        },
        Expr::Val(x) => Some(x),
    }
}

} // verus!
