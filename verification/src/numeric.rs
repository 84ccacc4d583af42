//! Integer arithmetic shared by the reducers: division that rounds toward
//! zero, and narrowing to the 64-bit range.
use vstd::prelude::*;

verus! {

/// The quotient of `a` by `b`, rounded toward zero; 0 where `b` is 0.
pub open spec fn div_toward_zero(a: int, b: int) -> int {
    if b == 0 {
        0
    } else if a >= 0 && b > 0 {
        a / b
    } else if a >= 0 {
        -(a / (-b))
    } else if b > 0 {
        -((-a) / b)
    } else {
        (-a) / (-b)
    }
}

/// `x` is the value of some `i64`.
pub open spec fn fits_i64(x: int) -> bool {
    i64::MIN <= x <= i64::MAX
}

/// Divides, rounding toward zero; the quotient by 0 is 0.
pub fn divide(a: i128, b: i128) -> (q: i128)
    requires
        a > i128::MIN,
    ensures
        q == div_toward_zero(a as int, b as int),
{
    match a.checked_div(b) {
        Some(q) => q,
        None => 0,
    }
}

/// The value as an `i64`, if it is one.
pub fn narrow(x: i128) -> (r: Option<i64>)
    ensures
        r == (if fits_i64(x as int) { Some(x as i64) } else { None }),
{
    if x < i64::MIN as i128 || x > i64::MAX as i128 {
        None
    } else {
        Some(x as i64)
    }
}

} // verus!
