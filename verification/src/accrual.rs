//! Integer yield arithmetic shared by the quest engine and the yield manager.
//!
//! All rates are in basis points and every division truncates, in the
//! order written here.

use vstd::prelude::*;

verus! {

/// Integer division that rounds toward zero, for a positive divisor.
pub open spec fn div_toward_zero(a: int, b: int) -> int
    recommends
        b > 0,
{
    if a >= 0 {
        a / b
    } else {
        -((-a) / b)
    }
}

/// Daily rate, in basis points, of an annual rate given in basis points.
pub open spec fn daily_rate_bp(apy_bp: int) -> int {
    apy_bp * 100 / 36500
}

/// Yield of `amount` held for `days` days at the annual rate `apy_bp`.
pub open spec fn accrued_yield(amount: int, apy_bp: int, days: int) -> int {
    div_toward_zero(amount * daily_rate_bp(apy_bp) * days, 10000)
}

/// Whole days between two instants, the second not before the first.
pub open spec fn whole_days(from: int, to: int) -> int {
    (to - from) / 86400
}

} // verus!
