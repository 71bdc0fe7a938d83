//! The price rules of the sale mechanism: the descending leadin curve and
//! the renewal bump, together with the laws they obey.

use vstd::prelude::*;
use vstd::arithmetic::div_mod::{
    lemma_div_is_ordered, lemma_div_multiples_vanish, lemma_fundamental_div_mod,
    lemma_fundamental_div_mod_converse, lemma_mod_bound,
};
use vstd::arithmetic::mul::{lemma_mul_inequality, lemma_mul_nonnegative, lemma_mul_upper_bound};
use crate::types::{Balance, SaleInfo, Timeslice, BILLION};

verus! {

/// Price of the linearly descending leadin curve after `elapsed` of
/// `leadin` timeslices: it starts at `start` and falls to `regular`.
pub open spec fn leadin_price(start: int, regular: int, leadin: int, elapsed: int) -> int
    recommends
        regular <= start,
        1 <= leadin,
        0 <= elapsed < leadin,
{
    regular + ((start - regular) * (leadin - elapsed)) / leadin
}

/// The sale price at `now`: the leadin curve while the leadin lasts, the
/// regular price afterwards.
pub open spec fn sale_price_at(sale: SaleInfo, now: int) -> int
    recommends
        sale.wf(),
        now >= sale.sale_start,
{
    if now < sale.sale_start + sale.leadin_length {
        leadin_price(
            sale.start_price as int,
            sale.regular_price as int,
            sale.leadin_length as int,
            now - sale.sale_start,
        )
    } else {
        sale.regular_price as int
    }
}

/// A price raised by `bump` parts per billion, exactly.
pub open spec fn bumped_price(price: int, bump: int) -> int {
    price + (price * bump) / (BILLION as int)
}

/// A price raised by `bump` parts per billion, saturating at the balance
/// type's maximum.
pub open spec fn sat_bumped_price(price: int, bump: int) -> int {
    if bumped_price(price, bump) <= Balance::MAX {
        bumped_price(price, bump)
    } else {
        Balance::MAX as int
    }
}

/// A price lowered by `bump` parts per billion, exactly.
pub open spec fn lowered_price(price: int, bump: int) -> int {
    price - (price * bump) / (BILLION as int)
}

/// A parts-per-billion fraction of a value never exceeds the value itself:
/// `0 <= value * ratio / BILLION <= value` while `ratio <= BILLION`.
pub proof fn lemma_ppb_fraction_le(value: int, ratio: int)
    requires
        0 <= value,
        0 <= ratio <= BILLION,
    ensures
        0 <= (value * ratio) / (BILLION as int) <= value,
{
    let b = BILLION as int;
    lemma_mul_nonnegative(value, ratio);
    lemma_div_is_ordered(0, value * ratio, b);
    lemma_mul_inequality(ratio, b, value);
    assert(value * ratio == ratio * value);
    assert(value * b == b * value);
    lemma_div_is_ordered(value * ratio, value * b, b);
    lemma_div_multiples_vanish(value, b);
}

/// Raises `price` by `bump` parts per billion, saturating at the maximum.
pub fn bump_price_up(price: Balance, bump: u32) -> (r: Balance)
    requires
        bump <= BILLION,
    ensures
        r as int == sat_bumped_price(price as int, bump as int),
{
    proof {
        lemma_ppb_fraction_le(price as int, bump as int);
    }
    let inc: u128 = (price as u128) * (bump as u128) / (BILLION as u128);
    let total: u128 = (price as u128) + inc;
    if total > Balance::MAX as u128 {
        Balance::MAX
    } else {
        total as u64
    }
}

/// Lowers `price` by `bump` parts per billion; never underflows.
pub fn bump_price_down(price: Balance, bump: u32) -> (r: Balance)
    requires
        bump <= BILLION,
    ensures
        r as int == lowered_price(price as int, bump as int),
{
    proof {
        lemma_ppb_fraction_le(price as int, bump as int);
    }
    let dec: u128 = (price as u128) * (bump as u128) / (BILLION as u128);
    price - (dec as u64)
}

/// Law: a renewal's price equals the previous price times one plus the
/// renewal bump, exactly, whenever that value is representable.
pub proof fn lemma_renewal_price_exact(price: Balance, bump: u32)
    requires
        bump <= BILLION,
        bumped_price(price as int, bump as int) <= Balance::MAX,
    ensures
        sat_bumped_price(price as int, bump as int) == (price as int * (BILLION as int
            + bump as int)) / (BILLION as int),
{
    let p = price as int;
    let b = BILLION as int;
    let q = (p * bump) / b;
    let r = (p * bump) % b;
    lemma_fundamental_div_mod(p * bump, b);
    lemma_mod_bound(p * bump, b);
    lemma_mul_nonnegative(p, bump as int);
    assert(p * (b + bump) == p * b + p * bump) by (nonlinear_arith);
    assert(p * b + (b * q + r) == b * (p + q) + r) by (nonlinear_arith);
    lemma_fundamental_div_mod_converse(p * (b + bump), b, p + q, r);
}

/// Law: while the leadin lasts the price is non-increasing in elapsed time
/// and stays between the regular and the start price inclusive; it equals
/// the start price at the sale's opening and the regular price exactly once
/// the leadin has elapsed.
pub proof fn lemma_price_curve(sale: SaleInfo, t1: int, t2: int)
    requires
        sale.wf(),
        sale.sale_start <= t1 <= t2,
    ensures
        sale_price_at(sale, t1) >= sale_price_at(sale, t2),
        sale.regular_price <= sale_price_at(sale, t1) <= sale.start_price,
        sale_price_at(sale, sale.sale_start as int) == sale.start_price,
        t1 >= sale.sale_start + sale.leadin_length ==> sale_price_at(sale, t1)
            == sale.regular_price,
{
    let x = sale.start_price as int - sale.regular_price as int;
    let l = sale.leadin_length as int;
    lemma_leadin_step(x, l, l);
    lemma_div_multiples_vanish(x, l);
    assert(l * x == x * l);
    if t1 < sale.sale_start + l {
        let e1 = t1 - sale.sale_start;
        lemma_leadin_step(x, l, l - e1);
        if t2 < sale.sale_start + l {
            let e2 = t2 - sale.sale_start;
            lemma_leadin_step(x, l, l - e2);
            lemma_mul_inequality(l - e2, l - e1, x);
            assert(x * (l - e2) == (l - e2) * x);
            assert(x * (l - e1) == (l - e1) * x);
            lemma_div_is_ordered(x * (l - e2), x * (l - e1), l);
        }
    }
}

/// The leadin quotient for `rem` remaining timeslices lies between zero and
/// the full price gap `x`.
proof fn lemma_leadin_step(x: int, l: int, rem: int)
    requires
        0 <= x,
        1 <= l,
        0 <= rem <= l,
    ensures
        0 <= (x * rem) / l <= x,
{
    lemma_mul_nonnegative(x, rem);
    lemma_div_is_ordered(0, x * rem, l);
    lemma_mul_inequality(rem, l, x);
    assert(x * rem == rem * x);
    assert(x * l == l * x);
    lemma_div_is_ordered(x * rem, x * l, l);
    lemma_div_multiples_vanish(x, l);
}

/// The sale price at `now`, for a sale open at `now`.
pub fn current_sale_price(sale: &SaleInfo, now: Timeslice) -> (r: Balance)
    requires
        sale.wf(),
        now >= sale.sale_start,
    ensures
        r as int == sale_price_at(*sale, now as int),
        sale.regular_price <= r <= sale.start_price,
{
    proof {
        lemma_price_curve(*sale, now as int, now as int);
    }
    let leadin_end: u64 = sale.sale_start as u64 + sale.leadin_length as u64;
    if (now as u64) < leadin_end {
        let elapsed: u32 = now - sale.sale_start;
        let rem: u32 = sale.leadin_length - elapsed;
        let gap: u64 = sale.start_price - sale.regular_price;
        proof {
            lemma_leadin_step(gap as int, sale.leadin_length as int, rem as int);
            lemma_mul_upper_bound(gap as int, u64::MAX as int, rem as int, u32::MAX as int);
        }
        let q: u128 = (gap as u128) * (rem as u128) / (sale.leadin_length as u128);
        sale.regular_price + (q as u64)
    } else {
        sale.regular_price
    }
}

} // verus!
