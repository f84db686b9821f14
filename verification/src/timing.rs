//! Wake-up arithmetic for the timer service.
//!
//! A periodic task whose next pending wake-up is at absolute time `first`
//! wakes at `first`, `first + period`, `first + 2 * period`, and so on.
//! [`wakes_before`] counts how many of those wake-ups lie strictly before a
//! deadline; the scheduler's run loop consumes exactly one of them per
//! resumption, which is what [`lemma_wakes_before_step`] states.

use vstd::prelude::*;
use vstd::arithmetic::div_mod::lemma_basic_div;
use vstd::arithmetic::div_mod::lemma_div_is_ordered;
use vstd::arithmetic::div_mod::lemma_div_plus_one;
use vstd::arithmetic::div_mod::lemma_div_pos_is_pos;
use vstd::arithmetic::div_mod::lemma_fundamental_div_mod;
use vstd::arithmetic::div_mod::lemma_mod_bound;
use vstd::arithmetic::mul::lemma_mul_inequality;
use vstd::arithmetic::mul::lemma_mul_is_distributive_add_other_way;
use vstd::arithmetic::mul::lemma_mul_nonnegative;

verus! {

/// How many wake-ups of a task with next pending wake-up `first` and period
/// `period` lie strictly before `deadline`.
pub open spec fn wakes_before(first: int, period: int, deadline: int) -> int {
    if period < 1 || first >= deadline {
        0
    } else {
        (deadline - 1 - first) / period + 1
    }
}

/// A wake-up count is never negative.
pub proof fn lemma_wakes_before_nonneg(first: int, period: int, deadline: int)
    ensures
        wakes_before(first, period, deadline) >= 0,
{
    if period >= 1 && first < deadline {
        lemma_div_pos_is_pos(deadline - 1 - first, period);
    }
}

/// Taking the pending wake-up consumes exactly one of the wake-ups before
/// the deadline: the rest of the schedule starts at `first + period`.
pub proof fn lemma_wakes_before_step(first: int, period: int, deadline: int)
    requires
        period >= 1,
        first < deadline,
    ensures
        wakes_before(first, period, deadline)
            == 1 + wakes_before(first + period, period, deadline),
{
    if first + period >= deadline {
        lemma_basic_div(deadline - 1 - first, period);
    } else {
        lemma_div_plus_one(deadline - 1 - first - period, period);
    }
}

/// `wakes_before` counts exactly the wake-ups on the task's grid: the
/// `k`-th wake-up, at `first + k * period`, lies strictly before the
/// deadline precisely when `k` is below the count.
pub proof fn lemma_wakes_before_characterizes(first: int, period: int, deadline: int, k: int)
    requires
        period >= 1,
        k >= 0,
    ensures
        first + k * period < deadline <==> k < wakes_before(first, period, deadline),
{
    if first >= deadline {
        lemma_mul_nonnegative(k, period);
    } else {
        let a = deadline - 1 - first;
        let q = a / period;
        lemma_fundamental_div_mod(a, period);
        lemma_mod_bound(a, period);
        if k <= q {
            lemma_mul_inequality(k, q, period);
        } else {
            lemma_mul_inequality(q + 1, k, period);
            lemma_mul_is_distributive_add_other_way(period, q, 1);
        }
    }
}

/// Over a window of `window` ticks starting at the first wake-up, the number
/// of wake-ups is `window / period`, give or take one for boundary alignment.
pub proof fn lemma_wakes_in_window(period: int, window: int)
    requires
        period >= 1,
        window >= 0,
    ensures
        window / period <= wakes_before(0, period, window),
        wakes_before(0, period, window) <= window / period + 1,
{
    if window == 0 {
        lemma_basic_div(0, period);
    } else {
        lemma_div_is_ordered(window - 1, window, period);
        lemma_div_plus_one(window - 1, period);
        lemma_div_is_ordered(window, window - 1 + period, period);
    }
}

} // verus!
