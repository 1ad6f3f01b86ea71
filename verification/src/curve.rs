//! The quote for a swap.
//!
//! A swap adds the offer to one balance and takes from the other what keeps
//! the invariant where it was. Of what is taken the pool keeps a fee that
//! depends on how far the swap leaves it out of balance.

use vstd::prelude::*;
use crate::error::ContractError;
use crate::error::ErrorKind;
use crate::fixed::less;
use crate::fixed::less_v;
use crate::fixed::minus;
use crate::fixed::minus_v;
use crate::fixed::over;
use crate::fixed::over_v;
use crate::fixed::plus;
use crate::fixed::plus_v;
use crate::fixed::times;
use crate::fixed::times_v;
use crate::fixed::unit;
use crate::fixed::Dec256;
use crate::math::fee_value;
use crate::ramp::AmpGamma;
use crate::solver::calc_d;
use crate::solver::calc_y;
use crate::solver::solved;
use crate::solver::solved_y;
use crate::state::PoolParams;
use crate::state::PoolState;
use crate::state::PriceState;
use crate::state::PriceView;

verus! {

/// What a swap gives and what it costs, as numbers of atomics.
pub struct SwapView {
    pub dy: nat,
    pub spread_fee: nat,
    pub maker_fee: nat,
    pub share_fee: nat,
    pub total_fee: nat,
}

/// What a swap gives and what it costs, in units of the asked asset.
#[derive(Clone, Copy, Debug)]
pub struct SwapResult {
    /// What the trader receives.
    pub dy: Dec256,
    /// What the price impact took, measured at the oracle's price.
    pub spread_fee: Dec256,
    /// The maker's part of the fee.
    pub maker_fee: Dec256,
    /// The part of the fee that is shared out.
    pub share_fee: Dec256,
    /// The whole fee.
    pub total_fee: Dec256,
}

impl View for SwapResult {
    type V = SwapView;

    open spec fn view(&self) -> SwapView {
        SwapView {
            dy: self.dy@,
            spread_fee: self.spread_fee@,
            maker_fee: self.maker_fee@,
            share_fee: self.share_fee@,
            total_fee: self.total_fee@,
        }
    }
}

/// The view of a swap result.
pub open spec fn swap_result(r: Result<SwapResult, ContractError>) -> Result<SwapView, ErrorKind> {
    match r {
        Ok(q) => Ok(q@),
        Err(e) => Err(e@),
    }
}

/// The amounts of a swap that takes the asked balance, in units of the
/// first asset, from `before` to `after`, leaving the balances `y0` and
/// `y1`: what is taken is brought to the asked asset's own units, the
/// spread is what the offer is worth at the oracle's price less what is
/// taken, and the fee on what is taken is split as the shares say.
#[verifier::opaque]
pub open spec fn fees_value(
    before: nat,
    after: nat,
    y0: nat,
    y1: nat,
    offer: nat,
    ask_ind: nat,
    price: PriceView,
    params: PoolParams,
    maker_fee_share: nat,
    share_fee_share: nat,
) -> Option<SwapView> {
    let taken = minus_v(Some(before), Some(after));
    let scale = Some(price.price_scale);
    let oracle = Some(price.oracle_price);
    let gross = if ask_ind == 1 {
        over_v(taken, scale)
    } else {
        taken
    };
    let spread = if ask_ind == 1 {
        less_v(over_v(Some(offer), oracle), gross)
    } else {
        less_v(Some(offer), over_v(gross, oracle))
    };
    let total = times_v(fee_value(params, y0, y1), gross);
    let share = times_v(total, Some(share_fee_share));
    let maker = times_v(minus_v(total, share), Some(maker_fee_share));
    match (minus_v(gross, total), spread, maker, share, total) {
        (Some(dy), Some(spread_fee), Some(maker_fee), Some(share_fee), Some(total_fee)) => Some(
            SwapView { dy, spread_fee, maker_fee, share_fee, total_fee },
        ),
        _ => None,
    }
}

/// What a swap of `offer` for the asset at `ask_ind` gives against the
/// balances `x0` and `x1`, each in units of its own asset. The second
/// balance and an offer of the second asset are brought to units of the
/// first by the price scale; the invariant is solved for; the offer is
/// added; and the asked balance is solved for that keeps the invariant.
#[verifier::opaque]
pub open spec fn swap_value(
    x0: nat,
    x1: nat,
    offer: nat,
    ask_ind: nat,
    pair: AmpGamma,
    price: PriceView,
    params: PoolParams,
    maker_fee_share: nat,
    share_fee_share: nat,
) -> Result<SwapView, ErrorKind> {
    if ask_ind >= 2 {
        Err(ErrorKind::Overflow)
    } else {
        match times_v(Some(x1), Some(price.price_scale)) {
            None => Err(ErrorKind::Overflow),
            Some(scaled) => match solved(x0, scaled, pair) {
                None => Err(ErrorKind::ConvergenceFailure),
                Some(d) => match (
                    if ask_ind == 1 {
                        plus_v(Some(x0), Some(offer))
                    } else {
                        Some(x0)
                    },
                    if ask_ind == 1 {
                        Some(scaled)
                    } else {
                        plus_v(Some(scaled), times_v(Some(offer), Some(price.price_scale)))
                    },
                ) {
                    (Some(g0), Some(g1)) => match solved_y(g0, g1, d, pair, ask_ind) {
                        None => Err(ErrorKind::ConvergenceFailure),
                        Some(y) => match fees_value(
                            if ask_ind == 1 {
                                g1
                            } else {
                                g0
                            },
                            y,
                            if ask_ind == 1 {
                                g0
                            } else {
                                y
                            },
                            if ask_ind == 1 {
                                y
                            } else {
                                g1
                            },
                            offer,
                            ask_ind,
                            price,
                            params,
                            maker_fee_share,
                            share_fee_share,
                        ) {
                            Some(q) => Ok(q),
                            None => Err(ErrorKind::Overflow),
                        },
                    },
                    _ => Err(ErrorKind::Overflow),
                },
            },
        }
    }
}

/// The amounts of a swap of `offer_amount` for the asset at `ask_ind`,
/// against the balances `xs` of a pool in the given state at the time `now`.
/// The balances and the offer are decimals, each in units of its own asset.
pub fn compute_swap(
    xs: &[Dec256; 2],
    offer_amount: Dec256,
    ask_ind: usize,
    state: &PoolState,
    params: &PoolParams,
    now: u64,
    maker_fee_share: Dec256,
    share_fee_share: Dec256,
) -> (r: Result<SwapResult, ContractError>)
    ensures
        swap_result(r) == swap_value(
            xs[0]@,
            xs[1]@,
            offer_amount@,
            ask_ind as nat,
            state.ramp.current_value(now),
            state.price_state@,
            *params,
            maker_fee_share@,
            share_fee_share@,
        ),
{
    proof {
        reveal(swap_value);
    }
    if ask_ind >= 2 {
        return Err(ContractError::Overflow);
    }
    let scale = state.price_state.price_scale;
    let scaled = match xs[1].checked_mul(scale) {
        Some(v) => v,
        None => {
            return Err(ContractError::Overflow);
        },
    };
    let pair = state.ramp.current(now);
    let d = match calc_d(&[xs[0], scaled], &pair) {
        Ok(d) => d,
        Err(e) => {
            return Err(e);
        },
    };
    let grown = if ask_ind == 1 {
        (xs[0].checked_add(offer_amount), Some(scaled))
    } else {
        (Some(xs[0]), plus(Some(scaled), offer_amount.checked_mul(scale)))
    };
    let ixs = match grown {
        (Some(a), Some(b)) => [a, b],
        _ => {
            return Err(ContractError::Overflow);
        },
    };
    let y = match calc_y(&ixs, d, &pair, ask_ind) {
        Ok(y) => y,
        Err(e) => {
            return Err(e);
        },
    };
    let left = if ask_ind == 1 {
        [ixs[0], y]
    } else {
        [y, ixs[1]]
    };
    match swap_fees(
        ixs[ask_ind],
        y,
        &left,
        offer_amount,
        ask_ind,
        &state.price_state,
        params,
        maker_fee_share,
        share_fee_share,
    ) {
        Some(q) => Ok(q),
        None => Err(ContractError::Overflow),
    }
}

/// The view of a swap result that may be missing.
pub open spec fn swap_option(r: Option<SwapResult>) -> Option<SwapView> {
    match r {
        Some(q) => Some(q@),
        None => None,
    }
}

/// The amounts of a swap that takes the asked balance, in units of the
/// first asset, from `before` to `after` and leaves the balances `left`.
pub fn swap_fees(
    before: Dec256,
    after: Dec256,
    left: &[Dec256; 2],
    offer_amount: Dec256,
    ask_ind: usize,
    price: &PriceState,
    params: &PoolParams,
    maker_fee_share: Dec256,
    share_fee_share: Dec256,
) -> (r: Option<SwapResult>)
    ensures
        swap_option(r) == fees_value(
            before@,
            after@,
            left[0]@,
            left[1]@,
            offer_amount@,
            ask_ind as nat,
            price@,
            *params,
            maker_fee_share@,
            share_fee_share@,
        ),
{
    proof {
        reveal(fees_value);
    }
    let scale = Some(price.price_scale);
    let oracle = Some(price.oracle_price);
    let taken = minus(Some(before), Some(after));
    let gross = if ask_ind == 1 {
        over(taken, scale)
    } else {
        taken
    };
    let spread = if ask_ind == 1 {
        less(over(Some(offer_amount), oracle), gross)
    } else {
        less(Some(offer_amount), over(gross, oracle))
    };
    let total = times(params.fee(left), gross);
    let share = times(total, Some(share_fee_share));
    let maker = times(minus(total, share), Some(maker_fee_share));
    match (minus(gross, total), spread, maker, share, total) {
        (Some(dy), Some(spread_fee), Some(maker_fee), Some(share_fee), Some(total_fee)) => Some(
            SwapResult { dy, spread_fee, maker_fee, share_fee, total_fee },
        ),
        _ => None,
    }
}

/// A greater `fee_gamma` does not raise the fee on what a swap takes: for
/// the same balances and fees, what is taken before the fee and the spread
/// stay, and the fee under the greater `fee_gamma` exceeds the fee under the
/// smaller by no more than rounding can cost, which is one atomic of the
/// fee rate on what is taken and one atomic of the fee.
pub proof fn lemma_fees_fall(
    before: nat,
    after: nat,
    y0: nat,
    y1: nat,
    offer: nat,
    ask_ind: nat,
    price: PriceView,
    lower: PoolParams,
    higher: PoolParams,
    maker_fee_share: nat,
    share_fee_share: nat,
)
    requires
        lower.mid_fee <= lower.out_fee,
        higher.mid_fee == lower.mid_fee,
        higher.out_fee == lower.out_fee,
        lower.fee_gamma <= higher.fee_gamma,
    ensures
        fees_value(
            before,
            after,
            y0,
            y1,
            offer,
            ask_ind,
            price,
            lower,
            maker_fee_share,
            share_fee_share,
        ) matches Some(q1) ==> (fees_value(
            before,
            after,
            y0,
            y1,
            offer,
            ask_ind,
            price,
            higher,
            maker_fee_share,
            share_fee_share,
        ) matches Some(q2) ==> {
            &&& q2.dy + q2.total_fee == q1.dy + q1.total_fee
            &&& q2.spread_fee == q1.spread_fee
            &&& q2.total_fee <= q1.total_fee + (q1.dy + q1.total_fee) / unit() + 1
            &&& q1.dy <= q2.dy + (q1.dy + q1.total_fee) / unit() + 1
        }),
{
    reveal(fees_value);
    crate::math::lemma_fee_monotonic(lower, higher, y0, y1);
    let first = fees_value(
        before,
        after,
        y0,
        y1,
        offer,
        ask_ind,
        price,
        lower,
        maker_fee_share,
        share_fee_share,
    );
    let second = fees_value(
        before,
        after,
        y0,
        y1,
        offer,
        ask_ind,
        price,
        higher,
        maker_fee_share,
        share_fee_share,
    );
    if first is Some && second is Some {
        let taken = minus_v(Some(before), Some(after));
        let gross = if ask_ind == 1 {
            over_v(taken, Some(price.price_scale))
        } else {
            taken
        };
        let g: int = gross->0 as int;
        let f1: int = fee_value(lower, y0, y1)->0 as int;
        let f2: int = fee_value(higher, y0, y1)->0 as int;
        let u: int = unit() as int;
        assert(0 <= f1 * g && 0 <= f2 * g && f2 * g <= f1 * g + g) by (nonlinear_arith)
            requires
                0 <= g,
                0 <= f1,
                0 <= f2,
                f2 <= f1 + 1,
        ;
        vstd::arithmetic::div_mod::lemma_div_is_ordered(f2 * g, f1 * g + g, u);
        crate::math::lemma_div_sum(f1 * g, g, u);
    }
}

/// A greater `fee_gamma` does not raise the fee of a swap: for the same
/// balances, offer, curve and fees, the swap under the greater `fee_gamma`
/// takes the same from the pool before the fee, and its fee exceeds the fee
/// under the smaller by no more than rounding can cost. What the trader
/// receives falls short by no more than that.
pub proof fn lemma_swap_fee_falls(
    x0: nat,
    x1: nat,
    offer: nat,
    ask_ind: nat,
    pair: AmpGamma,
    price: PriceView,
    lower: PoolParams,
    higher: PoolParams,
    maker_fee_share: nat,
    share_fee_share: nat,
)
    requires
        lower.mid_fee <= lower.out_fee,
        higher.mid_fee == lower.mid_fee,
        higher.out_fee == lower.out_fee,
        lower.fee_gamma <= higher.fee_gamma,
    ensures
        swap_value(x0, x1, offer, ask_ind, pair, price, lower, maker_fee_share, share_fee_share)
            matches Ok(q1) ==> (swap_value(
            x0,
            x1,
            offer,
            ask_ind,
            pair,
            price,
            higher,
            maker_fee_share,
            share_fee_share,
        ) matches Ok(q2) ==> {
            &&& q2.dy + q2.total_fee == q1.dy + q1.total_fee
            &&& q2.spread_fee == q1.spread_fee
            &&& q2.total_fee <= q1.total_fee + (q1.dy + q1.total_fee) / unit() + 1
            &&& q1.dy <= q2.dy + (q1.dy + q1.total_fee) / unit() + 1
        }),
{
    reveal(swap_value);
    if ask_ind < 2 {
        match times_v(Some(x1), Some(price.price_scale)) {
            Some(scaled) => match solved(x0, scaled, pair) {
                Some(d) => {
                    let g0 = if ask_ind == 1 {
                        plus_v(Some(x0), Some(offer))
                    } else {
                        Some(x0)
                    };
                    let g1 = if ask_ind == 1 {
                        Some(scaled)
                    } else {
                        plus_v(Some(scaled), times_v(Some(offer), Some(price.price_scale)))
                    };
                    if g0 is Some && g1 is Some {
                        match solved_y(g0->0, g1->0, d, pair, ask_ind) {
                            Some(y) => {
                                lemma_fees_fall(
                                    if ask_ind == 1 {
                                        g1->0
                                    } else {
                                        g0->0
                                    },
                                    y,
                                    if ask_ind == 1 {
                                        g0->0
                                    } else {
                                        y
                                    },
                                    if ask_ind == 1 {
                                        y
                                    } else {
                                        g1->0
                                    },
                                    offer,
                                    ask_ind,
                                    price,
                                    lower,
                                    higher,
                                    maker_fee_share,
                                    share_fee_share,
                                );
                            },
                            None => {},
                        }
                    }
                },
                None => {},
            },
            None => {},
        }
    }
}

} // verus!
