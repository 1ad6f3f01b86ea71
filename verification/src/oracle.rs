//! The price oracle and the repeg of the price scale.
//!
//! After a trade the oracle moves from where it stood toward the price of
//! the trade before, by the part `1 - 0.5^(elapsed / half-life)`. The profit
//! of the pool is taken anew from the invariant. Where the oracle has left
//! the price scale far enough behind and the profit allows it, the price
//! scale follows the oracle.

use vstd::prelude::*;
use crate::error::ContractError;
use crate::error::ErrorKind;
use crate::fixed::apart;
use crate::fixed::apart_v;
use crate::fixed::minus;
use crate::fixed::minus_v;
use crate::fixed::over;
use crate::fixed::over_v;
use crate::fixed::plus;
use crate::fixed::plus_v;
use crate::fixed::times;
use crate::fixed::times_v;
use crate::fixed::unit;
use crate::fixed::val;
use crate::fixed::Dec256;
use crate::math::get_xcp;
use crate::math::xcp_value;
use crate::ramp::AmpGamma;
use crate::ramp::UNIT;
use crate::solver::calc_d;
use crate::solver::solved;
use crate::state::PoolParams;
use crate::state::PoolState;
use crate::state::PriceState;
use crate::state::PriceView;

verus! {

/// How small a term of the power series must be for the series to end:
/// 0.0000000001.
pub const HALFPOW_TOL: u128 = 100_000_000;

/// The most terms of the power series.
pub const HALFPOW_TERMS: u8 = 64;

/// A power by squaring, with `y` the product of the factors set aside.
pub open spec fn pow_steps(x: Option<nat>, y: Option<nat>, n: nat) -> Option<nat>
    decreases n,
{
    if n <= 1 {
        times_v(x, y)
    } else if n % 2 == 0 {
        pow_steps(times_v(x, x), y, n / 2)
    } else {
        pow_steps(times_v(x, x), times_v(x, y), ((n - 1) / 2) as nat)
    }
}

/// The decimal with atomics `x` to the power `n`, computed by squaring and
/// rounded down at every product.
pub open spec fn pow_value(x: nat, n: nat) -> Option<nat> {
    if n == 0 {
        Some(unit())
    } else {
        pow_steps(Some(x), Some(unit()), n)
    }
}

impl Dec256 {
    /// The decimal to the power `exp`.
    pub fn checked_pow(self, exp: u32) -> (r: Option<Dec256>)
        ensures
            val(r) == pow_value(self@, exp as nat),
    {
        if exp == 0 {
            return Some(Dec256::one());
        }
        let mut x = Some(self);
        let mut y = Some(Dec256::one());
        let mut n: u32 = exp;
        while n > 1
            invariant
                n >= 1,
                pow_value(self@, exp as nat) == pow_steps(val(x), val(y), n as nat),
            decreases n,
        {
            if n % 2 == 0 {
                x = times(x, x);
                n = n / 2;
            } else {
                y = times(x, y);
                x = times(x, x);
                n = (n - 1) / 2;
            }
        }
        times(x, y)
    }
}

/// The rest of the power series of `0.5^frac` from the term `i` on, with
/// the term before it and the sum so far; `whole` is the power of the whole
/// part, by which the sum is multiplied in the end.
pub open spec fn halfpow_terms(frac: nat, whole: Option<nat>, term: Option<nat>, sum: Option<nat>, i: nat) -> Option<
    nat,
>
    decreases HALFPOW_TERMS - i,
{
    if i >= HALFPOW_TERMS {
        None
    } else {
        let k = Some(i * unit());
        let c = apart_v(Some(frac), Some(((i - 1) * unit()) as nat));
        let next = over_v(times_v(times_v(term, c), Some(unit() / 2)), k);
        let rest = minus_v(sum, next);
        match (next, rest) {
            (Some(t), Some(_)) => if t < HALFPOW_TOL {
                times_v(whole, rest)
            } else {
                halfpow_terms(frac, whole, next, rest, i + 1)
            },
            _ => None,
        }
    }
}

/// `0.5^power`: the power of the whole part of `power`, counted in 32 bits,
/// times the power series of the fractional part. None where the whole part
/// exceeds 128 bits, a step cannot be computed, or the series does not end
/// within its terms.
#[verifier::opaque]
pub open spec fn halfpow_value(power: nat) -> Option<nat> {
    let whole = power / unit();
    if whole > u128::MAX {
        None
    } else {
        halfpow_terms(
            (power - whole * unit()) as nat,
            pow_value(unit() / 2, whole % 0x1_0000_0000),
            Some(unit()),
            Some(unit()),
            1,
        )
    }
}

/// `0.5^power`.
pub fn half_float_pow(power: Dec256) -> (r: Option<Dec256>)
    ensures
        val(r) == halfpow_value(power@),
{
    proof {
        reveal(halfpow_value);
    }
    let half = Dec256::raw(UNIT / 2);
    let one = Dec256::one();
    proof {
        assert(unit() * unit() == 1_000_000_000_000_000_000_000_000_000_000_000_000nat)
            by (nonlinear_arith);
        crate::math::lemma_view_bound(power);
        let p = power@ as int;
        let u = unit() as int;
        vstd::arithmetic::div_mod::lemma_div_multiples_vanish_quotient(u, p, u);
        assert(p * u == u * p) by (nonlinear_arith);
        vstd::arithmetic::div_mod::lemma_div_nonincreasing(p, u);
        vstd::arithmetic::div_mod::lemma_div_pos_is_pos(p, u);
        vstd::arithmetic::div_mod::lemma_fundamental_div_mod(p, u);
        vstd::arithmetic::div_mod::lemma_mod_bound(p, u);
        assert((p / u) * u <= p) by (nonlinear_arith)
            requires
                p == u * (p / u) + p % u,
                0 <= p % u,
        ;
    }
    let cut = Dec256::raw(UNIT * UNIT);
    let whole = match power.checked_div(cut) {
        Some(w) => w,
        None => vstd::pervasive::unreached(),
    };
    let count: u128 = match whole.to_u128() {
        Some(c) => c,
        None => {
            return None;
        },
    };
    proof {
        let w = whole@ as int;
        let u = unit() as int;
        assert(w * (u * u) == (w * u) * u) by (nonlinear_arith);
        vstd::arithmetic::div_mod::lemma_div_by_multiple(w * u, u);
        assert(0 <= w * u) by (nonlinear_arith)
            requires
                0 <= w,
                0 < u,
        ;
    }
    let floor = match whole.checked_mul(cut) {
        Some(f) => f,
        None => vstd::pervasive::unreached(),
    };
    let frac = match power.checked_sub(floor) {
        Some(f) => f,
        None => vstd::pervasive::unreached(),
    };
    let low: u32 = (count % 0x1_0000_0000) as u32;
    let result = half.checked_pow(low);
    let mut term = Some(one);
    let mut sum = Some(one);
    let mut i: u8 = 1;
    while i < HALFPOW_TERMS
        invariant
            1 <= i <= HALFPOW_TERMS,
            half@ == unit() / 2,
            halfpow_value(power@) == halfpow_terms(frac@, val(result), val(term), val(sum), i as nat),
        decreases HALFPOW_TERMS - i,
    {
        proof {
            assert(i * unit() <= u128::MAX && (i - 1) * unit() <= u128::MAX) by (nonlinear_arith)
                requires
                    1 <= i <= 64,
                    unit() == 1_000_000_000_000_000_000,
            ;
        }
        let k = Some(Dec256::raw(i as u128 * UNIT));
        let c = apart(Some(frac), Some(Dec256::raw((i - 1) as u128 * UNIT)));
        let next = over(times(times(term, c), Some(half)), k);
        let rest = minus(sum, next);
        match (next, rest) {
            (Some(t), Some(_)) => {
                if t.lt(Dec256::raw(HALFPOW_TOL)) {
                    return times(result, rest);
                }
                term = next;
                sum = rest;
            },
            _ => {
                return None;
            },
        }
        i = i + 1;
    }
    None
}

/// The greater of two numbers.
pub open spec fn greater(a: nat, b: nat) -> nat {
    if a >= b {
        a
    } else {
        b
    }
}

/// The oracle's price and the time of its last move, after a trade at the
/// time `now`: the oracle moves only where time has passed.
#[verifier::opaque]
pub open spec fn oracle_value(price: PriceView, ma_half_time: nat, now: nat) -> Result<
    (nat, nat),
    ErrorKind,
> {
    if price.last_price_update < now {
        match over_v(Some((now - price.last_price_update) as nat), Some(ma_half_time)) {
            None => Err(ErrorKind::Overflow),
            Some(power) => match halfpow_value(power) {
                None => Err(ErrorKind::ConvergenceFailure),
                Some(alpha) => match plus_v(
                    times_v(Some(price.last_price), minus_v(Some(unit()), Some(alpha))),
                    times_v(Some(price.oracle_price), Some(alpha)),
                ) {
                    None => Err(ErrorKind::Overflow),
                    Some(oracle) => Ok((oracle, now)),
                },
            },
        }
    } else {
        Ok((price.oracle_price, price.last_price_update))
    }
}

/// The two profits after a trade that left the invariant worth `xcp` in
/// share units, with `total_lp` shares out. A pool without a record of its
/// real profit keeps its profits. A real profit that falls while the ramp is
/// over is refused.
#[verifier::opaque]
pub open spec fn profits_value(price: PriceView, xcp: Option<nat>, total_lp: nat, ramping: bool) -> Result<
    (nat, nat),
    ErrorKind,
> {
    if price.xcp_profit_real == 0 {
        Ok((price.xcp_profit, price.xcp_profit_real))
    } else {
        match over_v(xcp, Some(total_lp)) {
            None => Err(ErrorKind::Overflow),
            Some(actual) => if actual < price.xcp_profit_real && !ramping {
                Err(ErrorKind::ProfitDropped)
            } else {
                match over_v(
                    times_v(Some(price.xcp_profit), Some(actual)),
                    Some(price.xcp_profit_real),
                ) {
                    None => Err(ErrorKind::Overflow),
                    Some(profit) => Ok((profit, actual)),
                }
            },
        }
    }
}

/// The price scale and the real profit after the repeg has been looked at.
/// The price scale moves where the oracle is at least a step away from it,
/// the step being the least step or a tenth of the distance, and the real
/// profit exceeds half the profit by more than the threshold; it moves to
/// within a step of the oracle, if at the new scale the real profit still
/// exceeds half the profit.
#[verifier::opaque]
pub open spec fn repegged_value(
    oracle: nat,
    price_scale: nat,
    profit: nat,
    actual: nat,
    params: PoolParams,
    pair: AmpGamma,
    total_lp: nat,
    x0: nat,
    x1: nat,
) -> Result<(nat, nat), ErrorKind> {
    let one = Some(unit());
    let two = Some(2 * unit());
    match apart_v(over_v(Some(oracle), Some(price_scale)), one) {
        None => Err(ErrorKind::Overflow),
        Some(norm) => match times_v(Some(norm), Some(unit() / 10)) {
            None => Err(ErrorKind::Overflow),
            Some(tenth) => {
                let step = greater(params.min_price_scale_delta as nat, tenth);
                if norm < step {
                    Ok((price_scale, actual))
                } else {
                    match (
                        minus_v(Some(actual), one),
                        plus_v(
                            over_v(minus_v(Some(profit), one), two),
                            Some(params.repeg_profit_threshold as nat),
                        ),
                    ) {
                        (Some(gain), Some(bar)) => if gain > bar {
                            match over_v(
                                plus_v(
                                    times_v(Some(price_scale), minus_v(Some(norm), Some(step))),
                                    times_v(Some(step), Some(oracle)),
                                ),
                                Some(norm),
                            ) {
                                None => Err(ErrorKind::Overflow),
                                Some(next) => match over_v(
                                    times_v(Some(x1), Some(next)),
                                    Some(price_scale),
                                ) {
                                    None => Err(ErrorKind::Overflow),
                                    Some(moved) => match solved(x0, moved, pair) {
                                        None => Err(ErrorKind::ConvergenceFailure),
                                        Some(d) => match (
                                            over_v(xcp_value(d, next), Some(total_lp)),
                                            plus_v(Some(profit), one),
                                        ) {
                                            (Some(next_real), Some(floor)) => match times_v(
                                                two,
                                                Some(next_real),
                                            ) {
                                                None => Err(ErrorKind::Overflow),
                                                Some(twice) => if twice > floor {
                                                    Ok((next, next_real))
                                                } else {
                                                    Ok((price_scale, actual))
                                                },
                                            },
                                            _ => Err(ErrorKind::Overflow),
                                        },
                                    },
                                },
                            }
                        } else {
                            Ok((price_scale, actual))
                        },
                        _ => Err(ErrorKind::Overflow),
                    }
                }
            },
        }
    }
}

/// The prices and profits after a trade at `last_price` that left the
/// balances `x0` and `x1`, both in units of the first asset, with `total_lp`
/// shares out: the oracle moves, the last price is recorded, the profits are
/// taken anew, and the price scale is repegged where that is due.
#[verifier::opaque]
pub open spec fn repeg_value(
    price: PriceView,
    params: PoolParams,
    pair: AmpGamma,
    ramp_end: nat,
    now: nat,
    total_lp: nat,
    x0: nat,
    x1: nat,
    last_price: nat,
) -> Result<PriceView, ErrorKind> {
    match oracle_value(price, params.ma_half_time as nat, now) {
        Err(e) => Err(e),
        Ok(moved) => match solved(x0, x1, pair) {
            None => Err(ErrorKind::ConvergenceFailure),
            Some(d) => match profits_value(
                price,
                xcp_value(d, price.price_scale),
                total_lp,
                now < ramp_end,
            ) {
                Err(e) => Err(e),
                Ok(profits) => match repegged_value(
                    moved.0,
                    price.price_scale,
                    profits.0,
                    profits.1,
                    params,
                    pair,
                    total_lp,
                    x0,
                    x1,
                ) {
                    Err(e) => Err(e),
                    Ok(scale) => Ok(
                        PriceView {
                            oracle_price: moved.0,
                            last_price,
                            price_scale: scale.0,
                            last_price_update: moved.1,
                            xcp_profit: profits.0,
                            xcp_profit_real: scale.1,
                        },
                    ),
                },
            },
        },
    }
}

/// The view of a price state or its refusal.
pub open spec fn price_result(r: Result<PriceState, ContractError>) -> Result<
    PriceView,
    ErrorKind,
> {
    match r {
        Ok(p) => Ok(p@),
        Err(e) => Err(e@),
    }
}

/// The price scale and the real profit after the repeg has been looked at.
fn repegged(
    oracle: Dec256,
    price_scale: Dec256,
    profit: Dec256,
    actual: Dec256,
    params: &PoolParams,
    pair: &AmpGamma,
    total_lp: Dec256,
    xs: &[Dec256; 2],
) -> (r: Result<(Dec256, Dec256), ContractError>)
    ensures
        match repegged_value(
            oracle@,
            price_scale@,
            profit@,
            actual@,
            *params,
            *pair,
            total_lp@,
            xs[0]@,
            xs[1]@,
        ) {
            Ok(v) => r matches Ok(w) && w.0@ == v.0 && w.1@ == v.1,
            Err(e) => r matches Err(f) && f@ == e,
        },
{
    proof {
        reveal(repegged_value);
    }
    let one = Some(Dec256::one());
    let two = Some(Dec256::raw(2 * UNIT));
    let norm = match apart(over(Some(oracle), Some(price_scale)), one) {
        Some(n) => n,
        None => {
            return Err(ContractError::Overflow);
        },
    };
    let tenth = match norm.checked_mul(Dec256::raw(UNIT / 10)) {
        Some(t) => t,
        None => {
            return Err(ContractError::Overflow);
        },
    };
    let least = Dec256::raw(params.min_price_scale_delta);
    let step = if tenth.le(least) {
        least
    } else {
        tenth
    };
    if norm.lt(step) {
        return Ok((price_scale, actual));
    }
    let gain = minus(Some(actual), one);
    let bar = plus(over(minus(Some(profit), one), two), Some(Dec256::raw(params.repeg_profit_threshold)));
    match (gain, bar) {
        (Some(g), Some(b)) => {
            if !b.lt(g) {
                return Ok((price_scale, actual));
            }
        },
        _ => {
            return Err(ContractError::Overflow);
        },
    }
    let next = match over(
        plus(
            times(Some(price_scale), minus(Some(norm), Some(step))),
            times(Some(step), Some(oracle)),
        ),
        Some(norm),
    ) {
        Some(n) => n,
        None => {
            return Err(ContractError::Overflow);
        },
    };
    let moved = match over(times(Some(xs[1]), Some(next)), Some(price_scale)) {
        Some(m) => m,
        None => {
            return Err(ContractError::Overflow);
        },
    };
    let d = match calc_d(&[xs[0], moved], pair) {
        Ok(d) => d,
        Err(e) => {
            return Err(e);
        },
    };
    match (over(get_xcp(d, next), Some(total_lp)), plus(Some(profit), one)) {
        (Some(next_real), Some(floor)) => match Dec256::raw(2 * UNIT).checked_mul(next_real) {
            Some(twice) => if floor.lt(twice) {
                Ok((next, next_real))
            } else {
                Ok((price_scale, actual))
            },
            None => Err(ContractError::Overflow),
        },
        _ => Err(ContractError::Overflow),
    }
}

impl PoolState {
    /// The price state after a trade at `cur_price` that left the balances
    /// `cur_xs`, both in units of the first asset, with `total_lp` shares
    /// out.
    pub fn next_price(
        &self,
        pool_params: &PoolParams,
        now: u64,
        total_lp: Dec256,
        cur_xs: &[Dec256; 2],
        cur_price: Dec256,
    ) -> (r: Result<PriceState, ContractError>)
        ensures
            price_result(r) == repeg_value(
                self.price_state@,
                *pool_params,
                self.ramp.current_value(now),
                self.ramp.future_time as nat,
                now as nat,
                total_lp@,
                cur_xs[0]@,
                cur_xs[1]@,
                cur_price@,
            ),
    {
        proof {
            reveal(oracle_value);
            reveal(profits_value);
            reveal(repeg_value);
        }
        let price = &self.price_state;
        let pair = self.ramp.current(now);
        let moved = if price.last_price_update < now {
            let elapsed: u64 = now - price.last_price_update;
            let power = match Dec256::raw(elapsed as u128).checked_div(
                Dec256::raw(pool_params.ma_half_time as u128),
            ) {
                Some(p) => p,
                None => {
                    return Err(ContractError::Overflow);
                },
            };
            let alpha = match half_float_pow(power) {
                Some(a) => a,
                None => {
                    return Err(ContractError::ConvergenceFailure);
                },
            };
            match plus(
                times(Some(price.last_price), minus(Some(Dec256::one()), Some(alpha))),
                times(Some(price.oracle_price), Some(alpha)),
            ) {
                Some(o) => (o, now),
                None => {
                    return Err(ContractError::Overflow);
                },
            }
        } else {
            (price.oracle_price, price.last_price_update)
        };
        let d = match calc_d(cur_xs, &pair) {
            Ok(d) => d,
            Err(e) => {
                return Err(e);
            },
        };
        let xcp = get_xcp(d, price.price_scale);
        let profits = if price.xcp_profit_real.is_zero() {
            (price.xcp_profit, price.xcp_profit_real)
        } else {
            let actual = match over(xcp, Some(total_lp)) {
                Some(r) => r,
                None => {
                    return Err(ContractError::Overflow);
                },
            };
            if actual.lt(price.xcp_profit_real) && now >= self.ramp.future_time {
                return Err(ContractError::ProfitDropped);
            }
            match over(times(Some(price.xcp_profit), Some(actual)), Some(price.xcp_profit_real)) {
                Some(p) => (p, actual),
                None => {
                    return Err(ContractError::Overflow);
                },
            }
        };
        let scale = match repegged(
            moved.0,
            price.price_scale,
            profits.0,
            profits.1,
            pool_params,
            &pair,
            total_lp,
            cur_xs,
        ) {
            Ok(s) => s,
            Err(e) => {
                return Err(e);
            },
        };
        Ok(
            PriceState {
                oracle_price: moved.0,
                last_price: cur_price,
                price_scale: scale.0,
                last_price_update: moved.1,
                xcp_profit: profits.0,
                xcp_profit_real: scale.1,
            },
        )
    }

    /// Brings the price state up to date after a trade; see
    /// [`PoolState::next_price`]. A refusal leaves the state as it was.
    pub fn update_price(
        &mut self,
        pool_params: &PoolParams,
        now: u64,
        total_lp: Dec256,
        cur_xs: &[Dec256; 2],
        cur_price: Dec256,
    ) -> (r: Result<(), ContractError>)
        ensures
            final(self).ramp == old(self).ramp,
            match repeg_value(
                old(self).price_state@,
                *pool_params,
                old(self).ramp.current_value(now),
                old(self).ramp.future_time as nat,
                now as nat,
                total_lp@,
                cur_xs[0]@,
                cur_xs[1]@,
                cur_price@,
            ) {
                Ok(p) => r is Ok && final(self).price_state@ == p,
                Err(e) => r matches Err(f) && f@ == e && final(self).price_state == old(self).price_state,
            },
    {
        match self.next_price(pool_params, now, total_lp, cur_xs, cur_price) {
            Ok(p) => {
                self.price_state = p;
                Ok(())
            },
            Err(e) => Err(e),
        }
    }
}

} // verus!
