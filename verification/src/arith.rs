//! Integer division as Rust performs it on signed values (rounding toward zero), and
//! division rounded to the nearest integer.
use vstd::prelude::*;

verus! {

/// Quotient rounded toward zero, as Rust's `/` on signed integers (`b > 0`).
pub open spec fn tdiv(a: int, b: int) -> int {
    if a >= 0 {
        a / b
    } else {
        -((-a) / b)
    }
}

/// Remainder with the sign of the dividend, as Rust's `%` on signed integers (`b > 0`).
pub open spec fn trem(a: int, b: int) -> int {
    a - b * tdiv(a, b)
}

/// `n / d` rounded to the nearest integer, halves to the even one; 0 when `d` is 0.
pub open spec fn round_half_even_div(n: nat, d: nat) -> nat {
    if d == 0 {
        0
    } else {
        let q = n / d;
        let r = n % d;
        if 2 * r > d || (2 * r == d && q % 2 == 1) {
            q + 1
        } else {
            q
        }
    }
}

/// `n / d` rounded to the nearest integer, halves to the even one; 0 when `d` is 0.
pub fn round_half_even_div_exec(n: u128, d: u128) -> (r: u128)
    requires
        n < u128::MAX,
    ensures
        r == round_half_even_div(n as nat, d as nat),
        r <= n + 1,
{
    if d == 0 {
        0
    } else {
        let q = n / d;
        let r = n % d;
        assert(q <= n) by (nonlinear_arith)
            requires
                d > 0,
                q == n / d,
        ;
        if r > d - r || (r == d - r && q % 2 == 1) {
            q + 1
        } else {
            q
        }
    }
}

} // verus!
