//! Floored integer division, as the packing formulas need it.

use vstd::prelude::*;

verus! {

/// Relies on `num_integer::Integer::div_floor`: for a positive divisor the
/// quotient rounded toward negative infinity (it panics only on a zero divisor
/// or on `isize::MIN / -1`).
#[verifier::external_body]
pub(crate) fn div_floor(a: isize, b: isize) -> (r: isize)
    requires
        b > 0,
    ensures
        r as int == a as int / b as int,
{
    num_integer::Integer::div_floor(&a, &b)
}

/// Relies on `num_integer::Integer::mod_floor`: for a positive divisor the
/// remainder that has the divisor's sign, so in `0..b`.
#[verifier::external_body]
pub(crate) fn mod_floor(a: isize, b: isize) -> (r: isize)
    requires
        b > 0,
    ensures
        r as int == a as int % b as int,
{
    num_integer::Integer::mod_floor(&a, &b)
}

/// Quotient of `a` by `b`, rounded toward zero, as Rust's `/` gives it.
pub open spec fn trunc_div(a: int, b: int) -> int {
    if a >= 0 {
        a / b
    } else {
        -((-a) / b)
    }
}

/// Remainder that goes with `trunc_div`: it has the sign of `a`.
pub open spec fn trunc_rem(a: int, b: int) -> int {
    a - b * trunc_div(a, b)
}

} // verus!
