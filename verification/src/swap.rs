//! A swap against one pool.
//!
//! A swap is quoted by the curve, settled against the pool's balances, held
//! against the caller's bound on the spread, and, where it is large enough,
//! fed to the price oracle. Nothing is written to the pool before all of
//! this has succeeded.

use vstd::prelude::*;
use crate::asset::recorded;
use crate::asset::Asset;
use crate::asset::Precisions;
use crate::asset::LP_TOKEN_PRECISION;
use crate::curve::compute_swap;
use crate::oracle::repeg_value;
use crate::curve::swap_value;
use crate::curve::SwapResult;
use crate::curve::SwapView;
use crate::error::ContractError;
use crate::error::ErrorKind;
use crate::fixed::limit;
use crate::fixed::minus;
use crate::fixed::minus_v;
use crate::fixed::over;
use crate::fixed::over_v;
use crate::fixed::plus;
use crate::fixed::plus_v;
use crate::fixed::scaled_value;
use crate::fixed::times;
use crate::fixed::times_v;
use crate::fixed::unit;
use crate::fixed::val;
use crate::fixed::Dec256;
use crate::math::tolerance_value;
use crate::math::uint_value;
use crate::math::DEFAULT_SLIPPAGE;
use crate::math::MAX_ALLOWED_SLIPPAGE;
use crate::math::MIN_TRADE_SIZE;
use crate::ramp::UNIT;
use crate::state::find_asset_index;
use crate::state::with_amount;
use crate::ramp::Ramp;
use crate::state::Pool;
use crate::state::PoolView;
use crate::state::PoolParams;
use crate::state::PoolState;
use crate::state::PriceState;
use crate::state::PriceView;

verus! {

/// Whether a swap can be made at all: something is offered, and the pool
/// holds something of both assets.
pub fn before_swap_check(xs: &[Dec256; 2], offer_amount: Dec256) -> (r: Result<(), ContractError>)
    ensures
        offer_amount@ == 0 ==> r matches Err(ContractError::InvalidZeroAmount),
        offer_amount@ != 0 && (xs[0]@ == 0 || xs[1]@ == 0) ==> r matches Err(
            ContractError::EmptyPool,
        ),
        offer_amount@ != 0 && xs[0]@ != 0 && xs[1]@ != 0 ==> r is Ok,
{
    if offer_amount.is_zero() {
        return Err(ContractError::InvalidZeroAmount);
    }
    if xs[0].is_zero() || xs[1].is_zero() {
        return Err(ContractError::EmptyPool);
    }
    Ok(())
}

/// The price of a swap for the oracle, in units of the first asset for one
/// of the second: what was offered over what was received, or the reverse
/// where the second asset was offered.
pub open spec fn last_price_value(q: SwapView, offer: nat, offer_ind: nat) -> Option<nat> {
    let got = plus_v(Some(q.dy), Some(q.maker_fee));
    if offer_ind == 0 {
        over_v(Some(offer), got)
    } else {
        over_v(got, Some(offer))
    }
}

impl SwapResult {
    /// The price of the swap for the oracle.
    pub fn calc_last_price(&self, offer_amount: Dec256, offer_ind: usize) -> (r: Option<Dec256>)
        ensures
            val(r) == last_price_value(self@, offer_amount@, offer_ind as nat),
    {
        let got = plus(Some(self.dy), Some(self.maker_fee));
        if offer_ind == 0 {
            over(Some(offer_amount), got)
        } else {
            over(got, Some(offer_amount))
        }
    }
}

/// What the offer would return at the belief price `p`, in atomics of the
/// 128-bit decimal that is the inverse of `p`.
pub open spec fn expected_return(offer: nat, p: nat) -> nat {
    offer * (unit() * unit() / p) / unit()
}

/// The spread of a swap held against the caller's bound. With a belief
/// price the spread is what the return falls short of the return at that
/// price; without one it is the spread that the swap reports. Refused are a
/// bound above 0.5, a belief price of zero, amounts that leave 128 bits, a
/// swap that returns and loses nothing, and a spread above the bound.
pub open spec fn spread_check(
    belief_price: Option<u128>,
    max_spread: Option<u128>,
    offer: nat,
    returned: nat,
    spread: nat,
) -> Result<(), ErrorKind> {
    let bound = tolerance_value(max_spread);
    if bound > MAX_ALLOWED_SLIPPAGE {
        Err(ErrorKind::AllowedSpreadAssertion)
    } else {
        match belief_price {
            Some(p) => if p == 0 {
                Err(ErrorKind::InvalidBeliefPrice)
            } else if expected_return(offer, p as nat) > u128::MAX {
                Err(ErrorKind::Overflow)
            } else if returned < expected_return(offer, p as nat) && (expected_return(
                offer,
                p as nat,
            ) - returned) * unit() / (expected_return(offer, p as nat) as int) > bound {
                Err(ErrorKind::MaxSpreadAssertion)
            } else {
                Ok(())
            },
            None => if returned + spread > u128::MAX || returned + spread == 0 {
                Err(ErrorKind::Overflow)
            } else if spread * unit() / (returned + spread) > bound {
                Err(ErrorKind::MaxSpreadAssertion)
            } else {
                Ok(())
            },
        }
    }
}

/// The view of a check.
pub open spec fn unit_result(r: Result<(), ContractError>) -> Result<(), ErrorKind> {
    match r {
        Ok(_) => Ok(()),
        Err(e) => Err(e@),
    }
}

/// `a / b` as a decimal, for two 128-bit integers.
fn ratio(a: u128, b: u128) -> (r: Dec256)
    requires
        b != 0,
    ensures
        r@ == a * unit() / (b as int),
{
    proof {
        assert(a * unit() < limit()) by (nonlinear_arith)
            requires
                a <= u128::MAX,
                unit() == 1_000_000_000_000_000_000,
                limit()
                    == 0x1_0000_0000_0000_0000_0000_0000_0000_0000_0000_0000_0000_0000_0000_0000_0000_0000,
        ;
        vstd::arithmetic::div_mod::lemma_div_nonincreasing((a * unit()) as int, b as int);
        vstd::arithmetic::div_mod::lemma_div_pos_is_pos((a * unit()) as int, b as int);
    }
    match Dec256::raw(a).checked_div(Dec256::raw(b)) {
        Some(v) => v,
        None => vstd::pervasive::unreached(),
    }
}

/// Holds the spread of a swap against the caller's bound.
pub fn assert_max_spread(
    belief_price: Option<u128>,
    max_spread: Option<u128>,
    offer_amount: u128,
    return_amount: u128,
    spread_amount: u128,
) -> (r: Result<(), ContractError>)
    ensures
        unit_result(r) == spread_check(
            belief_price,
            max_spread,
            offer_amount as nat,
            return_amount as nat,
            spread_amount as nat,
        ),
{
    let bound = match max_spread {
        Some(t) => t,
        None => DEFAULT_SLIPPAGE,
    };
    if bound > MAX_ALLOWED_SLIPPAGE {
        return Err(ContractError::AllowedSpreadAssertion);
    }
    match belief_price {
        Some(p) => {
            if p == 0 {
                return Err(ContractError::InvalidBeliefPrice);
            }
            assert(unit() * unit() == UNIT * UNIT && UNIT * UNIT <= u128::MAX) by (nonlinear_arith)
                requires
                    unit() == 1_000_000_000_000_000_000,
                    UNIT == 1_000_000_000_000_000_000,
            ;
            let inverse: u128 = (UNIT * UNIT) / p;
            proof {
                assert(offer_amount * inverse / (unit() as int) < limit()) by (nonlinear_arith)
                    requires
                        offer_amount <= u128::MAX,
                        inverse <= u128::MAX,
                        unit() == 1_000_000_000_000_000_000,
                        limit()
                            == 0x1_0000_0000_0000_0000_0000_0000_0000_0000_0000_0000_0000_0000_0000_0000_0000_0000,
                ;
            }
            let expected = match Dec256::raw(offer_amount).checked_mul(Dec256::raw(inverse)) {
                Some(v) => v,
                None => vstd::pervasive::unreached(),
            };
            let expected: u128 = match expected.to_u128() {
                Some(v) => v,
                None => {
                    return Err(ContractError::Overflow);
                },
            };
            if return_amount < expected && Dec256::raw(bound).lt(
                ratio(expected - return_amount, expected),
            ) {
                return Err(ContractError::MaxSpreadAssertion);
            }
            Ok(())
        },
        None => {
            let whole: u128 = match return_amount.checked_add(spread_amount) {
                Some(v) => v,
                None => {
                    return Err(ContractError::Overflow);
                },
            };
            if whole == 0 {
                return Err(ContractError::Overflow);
            }
            if Dec256::raw(bound).lt(ratio(spread_amount, whole)) {
                return Err(ContractError::MaxSpreadAssertion);
            }
            Ok(())
        },
    }
}

/// A settled swap as numbers.
pub struct SettledView {
    /// The pool's decimal balance of the offered asset after the swap.
    pub x_offer: nat,
    /// The pool's decimal balance of the asked asset after the swap.
    pub x_ask: nat,
    /// What leaves the pool for the trader, in the asked asset's units.
    pub return_amount: nat,
    /// The spread, in the asked asset's units.
    pub spread_amount: nat,
    /// The whole fee, in the asked asset's units.
    pub commission_amount: nat,
}

/// A settled swap.
#[derive(Clone, Copy, Debug)]
pub struct Settled {
    pub x_offer: Dec256,
    pub x_ask: Dec256,
    pub return_amount: u128,
    pub spread_amount: u128,
    pub commission_amount: u128,
}

impl View for Settled {
    type V = SettledView;

    open spec fn view(&self) -> SettledView {
        SettledView {
            x_offer: self.x_offer@,
            x_ask: self.x_ask@,
            return_amount: self.return_amount as nat,
            spread_amount: self.spread_amount as nat,
            commission_amount: self.commission_amount as nat,
        }
    }
}

/// The balances after a quoted swap and the amounts that change hands. The
/// offered balance grows by the offer; the asked balance shrinks by what the
/// trader receives and by the maker's and the shared part of the fee. The
/// amounts are the quote's, cut to the asked asset's precision.
pub open spec fn settle_value(x_offer: nat, x_ask: nat, offer: nat, q: SwapView, ask_precision: nat) -> Result<
    SettledView,
    ErrorKind,
> {
    let paid = plus_v(plus_v(Some(q.dy), Some(q.maker_fee)), Some(q.share_fee));
    match (plus_v(Some(x_offer), Some(offer)), minus_v(Some(x_ask), paid)) {
        (Some(grown), Some(shrunk)) => match (
            uint_value(q.dy, ask_precision),
            uint_value(q.spread_fee, ask_precision),
            uint_value(q.total_fee, ask_precision),
        ) {
            (Some(returned), Some(spread), Some(fee)) => Ok(
                SettledView {
                    x_offer: grown,
                    x_ask: shrunk,
                    return_amount: returned,
                    spread_amount: spread,
                    commission_amount: fee,
                },
            ),
            _ => Err(ErrorKind::ConversionOverflow),
        },
        _ => Err(ErrorKind::Overflow),
    }
}

/// The view of a settled swap or its refusal.
pub open spec fn settled_result(r: Result<Settled, ContractError>) -> Result<SettledView, ErrorKind> {
    match r {
        Ok(s) => Ok(s@),
        Err(e) => Err(e@),
    }
}

/// Settles a quoted swap against the decimal balances of the offered and
/// the asked asset.
pub fn settle_swap(
    x_offer: Dec256,
    x_ask: Dec256,
    offer_amount: Dec256,
    quote: &SwapResult,
    ask_precision: u8,
) -> (r: Result<Settled, ContractError>)
    ensures
        settled_result(r) == settle_value(
            x_offer@,
            x_ask@,
            offer_amount@,
            quote@,
            ask_precision as nat,
        ),
        r matches Ok(s) ==> s.x_offer@ == x_offer@ + offer_amount@ && s.x_ask@ == x_ask@ - (quote.dy@
            + quote.maker_fee@ + quote.share_fee@),
{
    let paid = plus(plus(Some(quote.dy), Some(quote.maker_fee)), Some(quote.share_fee));
    let grown = plus(Some(x_offer), Some(offer_amount));
    let shrunk = minus(Some(x_ask), paid);
    match (grown, shrunk) {
        (Some(g), Some(s)) => {
            let returned = quote.dy.to_uint(ask_precision);
            let spread = quote.spread_fee.to_uint(ask_precision);
            let fee = quote.total_fee.to_uint(ask_precision);
            match (returned, spread, fee) {
                (Some(a), Some(b), Some(c)) => Ok(
                    Settled {
                        x_offer: g,
                        x_ask: s,
                        return_amount: a,
                        spread_amount: b,
                        commission_amount: c,
                    },
                ),
                _ => Err(ContractError::ConversionOverflow),
            }
        },
        _ => Err(ContractError::Overflow),
    }
}

/// The price state after a settled swap. A swap in which the offer or what
/// left the pool is below the least trade size leaves the prices alone; any
/// other moves the oracle with the price of the swap.
pub open spec fn price_after_swap_value(
    price: PriceView,
    params: PoolParams,
    ramp: Ramp,
    now: u64,
    total_share: nat,
    x0: nat,
    x1: nat,
    offer: nat,
    offer_ind: nat,
    q: SwapView,
) -> Result<PriceView, ErrorKind> {
    match plus_v(plus_v(Some(q.dy), Some(q.maker_fee)), Some(q.share_fee)) {
        None => Err(ErrorKind::Overflow),
        Some(paid) => if paid >= MIN_TRADE_SIZE && offer >= MIN_TRADE_SIZE {
            match (last_price_value(q, offer, offer_ind), times_v(Some(x1), Some(price.price_scale))) {
                (Some(last), Some(scaled)) => repeg_value(
                    price,
                    params,
                    ramp.current_value(now),
                    ramp.future_time as nat,
                    now as nat,
                    scaled_value(total_share, LP_TOKEN_PRECISION as nat),
                    x0,
                    scaled,
                    last,
                ),
                _ => Err(ErrorKind::Overflow),
            }
        } else {
            Ok(price)
        },
    }
}

/// The price state after a swap that left the decimal balances `xs`, each
/// in units of its own asset.
pub fn price_after_swap(
    state: &PoolState,
    params: &PoolParams,
    now: u64,
    total_share: u128,
    xs: &[Dec256; 2],
    offer_amount: Dec256,
    offer_ind: usize,
    quote: &SwapResult,
) -> (r: Result<PriceState, ContractError>)
    ensures
        crate::oracle::price_result(r) == price_after_swap_value(
            state.price_state@,
            *params,
            state.ramp,
            now,
            total_share as nat,
            xs[0]@,
            xs[1]@,
            offer_amount@,
            offer_ind as nat,
            quote@,
        ),
{
    let least = Dec256::raw(MIN_TRADE_SIZE);
    let paid = match plus(plus(Some(quote.dy), Some(quote.maker_fee)), Some(quote.share_fee)) {
        Some(v) => v,
        None => {
            return Err(ContractError::Overflow);
        },
    };
    if least.le(paid) && least.le(offer_amount) {
        let last = quote.calc_last_price(offer_amount, offer_ind);
        let scaled = times(Some(xs[1]), Some(state.price_state.price_scale));
        match (last, scaled) {
            (Some(l), Some(s)) => {
                let total_lp = Dec256::with_precision(total_share, LP_TOKEN_PRECISION);
                let cur = [xs[0], s];
                state.next_price(params, now, total_lp, &cur, l)
            },
            _ => Err(ContractError::Overflow),
        }
    } else {
        Ok(state.price_state)
    }
}

/// What a swap reads off a pool, as numbers.
pub struct SwapInputsView {
    /// Where the offered asset stands among the pool's two.
    pub offer_ind: nat,
    /// The decimal places of the asked asset.
    pub ask_precision: nat,
    /// The offer as a decimal.
    pub offer: nat,
    /// The pool's balance of the offered asset as a decimal.
    pub x_offer: nat,
    /// The pool's balance of the asked asset as a decimal.
    pub x_ask: nat,
}

/// What a swap reads off a pool.
#[derive(Clone, Copy, Debug)]
pub struct SwapInputs {
    pub offer_ind: usize,
    pub ask_precision: u8,
    pub offer: Dec256,
    pub x_offer: Dec256,
    pub x_ask: Dec256,
}

impl View for SwapInputs {
    type V = SwapInputsView;

    open spec fn view(&self) -> SwapInputsView {
        SwapInputsView {
            offer_ind: self.offer_ind as nat,
            ask_precision: self.ask_precision as nat,
            offer: self.offer@,
            x_offer: self.x_offer@,
            x_ask: self.x_ask@,
        }
    }
}

impl SwapInputsView {
    /// The balance of the pool's first asset.
    pub open spec fn x0(self) -> nat {
        if self.offer_ind == 0 {
            self.x_offer
        } else {
            self.x_ask
        }
    }

    /// The balance of the pool's second asset.
    pub open spec fn x1(self) -> nat {
        if self.offer_ind == 0 {
            self.x_ask
        } else {
            self.x_offer
        }
    }
}

/// Where the asset stands among a pool's two balances.
pub open spec fn place_of(balances: Seq<Asset>, asset: Asset) -> Option<nat> {
    if balances[0].info.same(&asset.info) {
        Some(0)
    } else if balances[1].info.same(&asset.info) {
        Some(1)
    } else {
        None
    }
}

/// What a swap of `offer_asset` reads off the pool: the offered asset must
/// have a recorded precision and be one of the pool's two, and the other
/// asset must have a recorded precision too.
pub open spec fn swap_inputs_value(pool: PoolView, precisions: Precisions, offer_asset: Asset) -> Result<
    SwapInputsView,
    ErrorKind,
> {
    match (recorded(precisions.0@, offer_asset.info.name()), place_of(pool.balances, offer_asset)) {
        (Some(offer_precision), Some(offer_ind)) => match recorded(
            precisions.0@,
            pool.balances[1 - offer_ind].info.name(),
        ) {
            Some(ask_precision) => Ok(
                SwapInputsView {
                    offer_ind,
                    ask_precision: ask_precision as nat,
                    offer: scaled_value(offer_asset.amount as nat, offer_precision as nat),
                    x_offer: scaled_value(
                        pool.balances[offer_ind as int].amount as nat,
                        offer_precision as nat,
                    ),
                    x_ask: scaled_value(
                        pool.balances[1 - offer_ind].amount as nat,
                        ask_precision as nat,
                    ),
                },
            ),
            None => Err(ErrorKind::InvalidAsset(pool.balances[1 - offer_ind].info.name())),
        },
        _ => Err(ErrorKind::InvalidAsset(offer_asset.info.name())),
    }
}

/// The view of a swap's inputs or their refusal.
pub open spec fn inputs_result(r: Result<SwapInputs, ContractError>) -> Result<
    SwapInputsView,
    ErrorKind,
> {
    match r {
        Ok(s) => Ok(s@),
        Err(e) => Err(e@),
    }
}

/// Reads off a pool what a swap of `offer_asset` needs.
pub fn swap_inputs(pool: &Pool, precisions: &Precisions, offer_asset: &Asset) -> (r: Result<
    SwapInputs,
    ContractError,
>)
    requires
        pool.wf(),
    ensures
        inputs_result(r) == swap_inputs_value(pool@, *precisions, *offer_asset),
{
    let offer_precision = match precisions.get_precision(&offer_asset.info) {
        Ok(p) => p,
        Err(e) => {
            return Err(e);
        },
    };
    let offer_ind = match find_asset_index(&pool.balances, &offer_asset.info) {
        Some(i) => i,
        None => {
            return Err(ContractError::InvalidAsset(offer_asset.info.to_string()));
        },
    };
    let ask_ind: usize = 1 - offer_ind;
    let ask_precision = match precisions.get_precision(&pool.balances[ask_ind].info) {
        Ok(p) => p,
        Err(e) => {
            return Err(e);
        },
    };
    Ok(
        SwapInputs {
            offer_ind,
            ask_precision,
            offer: Dec256::with_precision(offer_asset.amount, offer_precision),
            x_offer: Dec256::with_precision(pool.balances[offer_ind].amount, offer_precision),
            x_ask: Dec256::with_precision(pool.balances[ask_ind].amount, ask_precision),
        },
    )
}

/// The quote for a swap with the given inputs: refused where nothing is
/// offered or a side of the pool is empty, and else what the curve gives.
/// No part of the fee goes to a maker or is shared out.
pub open spec fn quote_value(
    inputs: SwapInputsView,
    ramp: Ramp,
    price: PriceView,
    params: PoolParams,
    now: u64,
) -> Result<
    SwapView,
    ErrorKind,
> {
    if inputs.offer == 0 {
        Err(ErrorKind::InvalidZeroAmount)
    } else if inputs.x_offer == 0 || inputs.x_ask == 0 {
        Err(ErrorKind::EmptyPool)
    } else {
        swap_value(
            inputs.x0(),
            inputs.x1(),
            inputs.offer,
            (1 - inputs.offer_ind) as nat,
            ramp.current_value(now),
            price,
            params,
            0,
            0,
        )
    }
}

/// The quote for a swap with the given inputs.
pub fn quote(inputs: &SwapInputs, state: &PoolState, params: &PoolParams, now: u64) -> (r: Result<
    SwapResult,
    ContractError,
>)
    requires
        inputs.offer_ind < 2,
    ensures
        crate::curve::swap_result(r) == quote_value(
            inputs@,
            state.ramp,
            state.price_state@,
            *params,
            now,
        ),
{
    let xs = if inputs.offer_ind == 0 {
        [inputs.x_offer, inputs.x_ask]
    } else {
        [inputs.x_ask, inputs.x_offer]
    };
    match before_swap_check(&xs, inputs.offer) {
        Ok(_) => {},
        Err(e) => {
            return Err(e);
        },
    }
    compute_swap(
        &xs,
        inputs.offer,
        1 - inputs.offer_ind,
        state,
        params,
        now,
        Dec256::zero(),
        Dec256::zero(),
    )
}

/// What a swap would give, without making it.
#[derive(Clone, Copy, Debug, PartialEq, Eq, Structural)]
pub struct SimulationResponse {
    /// What the trader would receive.
    pub return_amount: u128,
    /// What the price impact would take.
    pub spread_amount: u128,
    /// The fee.
    pub commission_amount: u128,
}

/// What a swap of `offer_asset` would give: the quote's amounts, cut to the
/// asked asset's precision.
pub open spec fn simulation_value(
    pool: PoolView,
    precisions: Precisions,
    now: u64,
    offer_asset: Asset,
) -> Result<
    SimulationResponse,
    ErrorKind,
> {
    match swap_inputs_value(pool, precisions, offer_asset) {
        Err(e) => Err(e),
        Ok(inputs) => match quote_value(inputs, pool.ramp, pool.price, pool.params, now) {
            Err(e) => Err(e),
            Ok(q) => match (
                uint_value(q.dy, inputs.ask_precision),
                uint_value(q.spread_fee, inputs.ask_precision),
                uint_value(q.total_fee, inputs.ask_precision),
            ) {
                (Some(returned), Some(spread), Some(fee)) => Ok(
                    SimulationResponse {
                        return_amount: returned as u128,
                        spread_amount: spread as u128,
                        commission_amount: fee as u128,
                    },
                ),
                _ => Err(ErrorKind::ConversionOverflow),
            },
        },
    }
}

/// The view of a simulation or its refusal.
pub open spec fn simulation_result(r: Result<SimulationResponse, ContractError>) -> Result<
    SimulationResponse,
    ErrorKind,
> {
    match r {
        Ok(s) => Ok(s),
        Err(e) => Err(e@),
    }
}

/// What a swap of `offer_asset` against the pool would give at the time
/// `now`. The pool is left as it is.
pub fn query_simulation(pool: &Pool, precisions: &Precisions, now: u64, offer_asset: &Asset) -> (r:
    Result<SimulationResponse, ContractError>)
    requires
        pool.wf(),
    ensures
        simulation_result(r) == simulation_value(pool@, *precisions, now, *offer_asset),
{
    let inputs = match swap_inputs(pool, precisions, offer_asset) {
        Ok(i) => i,
        Err(e) => {
            return Err(e);
        },
    };
    let q = match quote(&inputs, &pool.config.pool_state, &pool.config.pool_params, now) {
        Ok(q) => q,
        Err(e) => {
            return Err(e);
        },
    };
    match (
        q.dy.to_uint(inputs.ask_precision),
        q.spread_fee.to_uint(inputs.ask_precision),
        q.total_fee.to_uint(inputs.ask_precision),
    ) {
        (Some(a), Some(b), Some(c)) => Ok(
            SimulationResponse { return_amount: a, spread_amount: b, commission_amount: c },
        ),
        _ => Err(ContractError::ConversionOverflow),
    }
}

/// A swap that was made, as numbers.
pub struct SwapFlowView {
    /// The settled amounts and decimal balances.
    pub settled: SettledView,
    /// Where the offered asset stands among the pool's two.
    pub offer_ind: nat,
    /// The pool's balance of the offered asset after the swap.
    pub offer_balance: nat,
    /// The pool's balance of the asked asset after the swap.
    pub ask_balance: nat,
    /// The pool's prices after the swap.
    pub price: PriceView,
}

/// The balances of the pool's two assets after a settled swap.
pub open spec fn settled_xs(inputs: SwapInputsView, s: SettledView) -> (nat, nat) {
    if inputs.offer_ind == 0 {
        (s.x_offer, s.x_ask)
    } else {
        (s.x_ask, s.x_offer)
    }
}

/// A swap of `offer_asset` against the pool at the time `now`, with
/// `total_share` shares out: the inputs are read, the swap is quoted and
/// settled, the spread is held against the caller's bound, the prices are
/// brought up to date, and the offer is added to the pool's balance of the
/// one asset while what the trader receives is taken from the other.
pub open spec fn swap_flow(
    pool: PoolView,
    precisions: Precisions,
    now: u64,
    offer_asset: Asset,
    belief_price: Option<u128>,
    max_spread: Option<u128>,
    total_share: u128,
) -> Result<SwapFlowView, ErrorKind> {
    match swap_inputs_value(pool, precisions, offer_asset) {
        Err(e) => Err(e),
        Ok(inputs) => match quote_value(inputs, pool.ramp, pool.price, pool.params, now) {
            Err(e) => Err(e),
            Ok(q) => match settle_value(
                inputs.x_offer,
                inputs.x_ask,
                inputs.offer,
                q,
                inputs.ask_precision,
            ) {
                Err(e) => Err(e),
                Ok(s) => match spread_check(
                    belief_price,
                    max_spread,
                    offer_asset.amount as nat,
                    s.return_amount,
                    s.spread_amount,
                ) {
                    Err(e) => Err(e),
                    Ok(_) => match price_after_swap_value(
                        pool.price,
                        pool.params,
                        pool.ramp,
                        now,
                        total_share as nat,
                        settled_xs(inputs, s).0,
                        settled_xs(inputs, s).1,
                        inputs.offer,
                        inputs.offer_ind,
                        q,
                    ) {
                        Err(e) => Err(e),
                        Ok(price) => if pool.balances[inputs.offer_ind as int].amount
                            + offer_asset.amount > u128::MAX || pool.balances[1
                            - inputs.offer_ind].amount < s.return_amount {
                            Err(ErrorKind::Overflow)
                        } else {
                            Ok(
                                SwapFlowView {
                                    settled: s,
                                    offer_ind: inputs.offer_ind,
                                    offer_balance: (pool.balances[inputs.offer_ind as int].amount
                                        + offer_asset.amount) as nat,
                                    ask_balance: (pool.balances[1 - inputs.offer_ind].amount
                                        - s.return_amount) as nat,
                                    price,
                                },
                            )
                        },
                    },
                },
            },
        },
    }
}

/// The pool after a swap that was made.
pub open spec fn swapped(pool: PoolView, v: SwapFlowView) -> PoolView {
    PoolView {
        balances: with_amount(
            with_amount(pool.balances, v.offer_ind as int, v.offer_balance as u128),
            1 - v.offer_ind,
            v.ask_balance as u128,
        ),
        price: v.price,
        ..pool
    }
}

/// Makes a swap of `offer_asset` against the pool. A refusal leaves the
/// pool as it was.
pub fn swap_internal(
    pool: &mut Pool,
    precisions: &Precisions,
    now: u64,
    offer_asset: &Asset,
    belief_price: Option<u128>,
    max_spread: Option<u128>,
    total_share: u128,
) -> (r: Result<Settled, ContractError>)
    requires
        old(pool).wf(),
    ensures
        final(pool).wf(),
        match swap_flow(
            old(pool)@,
            *precisions,
            now,
            *offer_asset,
            belief_price,
            max_spread,
            total_share,
        ) {
            Ok(v) => r matches Ok(s) && s@ == v.settled && final(pool)@ == swapped(old(pool)@, v),
            Err(e) => r matches Err(f) && f@ == e && *final(pool) == *old(pool),
        },
{
    let inputs = match swap_inputs(pool, precisions, offer_asset) {
        Ok(i) => i,
        Err(e) => {
            return Err(e);
        },
    };
    let q = match quote(&inputs, &pool.config.pool_state, &pool.config.pool_params, now) {
        Ok(q) => q,
        Err(e) => {
            return Err(e);
        },
    };
    let settled = match settle_swap(inputs.x_offer, inputs.x_ask, inputs.offer, &q, inputs.ask_precision) {
        Ok(s) => s,
        Err(e) => {
            return Err(e);
        },
    };
    match assert_max_spread(
        belief_price,
        max_spread,
        offer_asset.amount,
        settled.return_amount,
        settled.spread_amount,
    ) {
        Ok(_) => {},
        Err(e) => {
            return Err(e);
        },
    }
    let xs = if inputs.offer_ind == 0 {
        [settled.x_offer, settled.x_ask]
    } else {
        [settled.x_ask, settled.x_offer]
    };
    let price = match price_after_swap(
        &pool.config.pool_state,
        &pool.config.pool_params,
        now,
        total_share,
        &xs,
        inputs.offer,
        inputs.offer_ind,
        &q,
    ) {
        Ok(p) => p,
        Err(e) => {
            return Err(e);
        },
    };
    let offer_ind = inputs.offer_ind;
    let ask_ind: usize = 1 - offer_ind;
    let grown = pool.balances[offer_ind].amount.checked_add(offer_asset.amount);
    let shrunk = pool.balances[ask_ind].amount.checked_sub(settled.return_amount);
    match (grown, shrunk) {
        (Some(g), Some(s)) => {
            pool.balances[offer_ind].amount = g;
            pool.balances[ask_ind].amount = s;
            pool.config.pool_state.price_state = price;
            proof {
                assert(pool.balances@ =~= with_amount(
                    with_amount(old(pool).balances@, offer_ind as int, g),
                    ask_ind as int,
                    s,
                ));
            }
            Ok(settled)
        },
        _ => Err(ContractError::Overflow),
    }
}

/// A swap conserves what the pool holds. In decimals, the balance of the
/// offered asset grows by exactly the offer, and the balance of the asked
/// asset shrinks by exactly what the trader receives and the maker's and
/// the shared part of the fee. In the assets' smallest units, the pool's
/// balance of the offered asset grows by exactly the amount offered, and
/// its balance of the asked asset shrinks by exactly the amount returned.
pub proof fn lemma_swap_conserves(
    pool: PoolView,
    precisions: Precisions,
    now: u64,
    offer_asset: Asset,
    belief_price: Option<u128>,
    max_spread: Option<u128>,
    total_share: u128,
)
    requires
        pool.wf(),
    ensures
        swap_flow(pool, precisions, now, offer_asset, belief_price, max_spread, total_share)
            matches Ok(v) ==> {
            let inputs = swap_inputs_value(pool, precisions, offer_asset)->Ok_0;
            let q = quote_value(inputs, pool.ramp, pool.price, pool.params, now)->Ok_0;
            &&& v.settled.x_offer == inputs.x_offer + inputs.offer
            &&& v.settled.x_ask + (q.dy + q.maker_fee + q.share_fee) == inputs.x_ask
            &&& v.offer_balance == pool.balances[v.offer_ind as int].amount + offer_asset.amount
            &&& v.ask_balance + v.settled.return_amount == pool.balances[1 - v.offer_ind].amount
            &&& swapped(pool, v).balances[v.offer_ind as int].amount == v.offer_balance
            &&& swapped(pool, v).balances[1 - v.offer_ind].amount == v.ask_balance
        },
{
}

} // verus!
