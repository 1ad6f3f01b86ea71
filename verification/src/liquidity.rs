//! Deposits into a pool and withdrawals from it.
//!
//! A deposit mints shares for what it adds to the pool's invariant. The
//! first deposit into a pool must bring both assets, and a thousand units of
//! its shares stay locked for good. A later deposit pays the swap fee on
//! the part of it that is out of balance with the pool. A withdrawal gives
//! back a part of both balances in proportion to the shares burnt.

use vstd::prelude::*;
use crate::asset::recorded;
use crate::asset::Asset;
use crate::asset::AssetInfo;
use crate::asset::Precisions;
use crate::asset::LP_TOKEN_PRECISION;
use crate::solver::calc_d;
use crate::oracle::repeg_value;
use crate::solver::solved;
use crate::error::ContractError;
use crate::error::ErrorKind;
use crate::fixed::apart;
use crate::fixed::apart_v;
use crate::fixed::less;
use crate::fixed::less_v;
use crate::fixed::minus;
use crate::fixed::minus_v;
use crate::fixed::over;
use crate::fixed::over_v;
use crate::fixed::plus;
use crate::fixed::plus_v;
use crate::fixed::scaled_value;
use crate::fixed::times;
use crate::fixed::times_v;
use crate::fixed::unit;
use crate::fixed::val;
use crate::fixed::Dec256;
use crate::math::assert_slippage_tolerance;
use crate::math::calc_provide_fee;
use crate::math::dec_result;
use crate::math::get_xcp;
use crate::math::provide_fee_value;
use crate::math::slippage_check;
use crate::math::uint_value;
use crate::math::xcp_value;
use crate::math::MIN_TRADE_SIZE;
use crate::ramp::Ramp;
use crate::state::with_amount;
use crate::state::Pool;
use crate::state::PoolView;
use crate::state::PoolParams;
use crate::state::PoolState;
use crate::state::PriceState;
use crate::state::PriceView;

verus! {

/// The shares of the first deposit that stay locked, in the share token's
/// smallest unit.
pub const MINIMUM_LIQUIDITY_AMOUNT: u128 = 1_000;

/// The locked shares as a decimal.
pub open spec fn locked_value() -> nat {
    scaled_value(MINIMUM_LIQUIDITY_AMOUNT as nat, LP_TOKEN_PRECISION as nat)
}

/// The amounts that a deposit brings of the pool's first and second asset.
/// A deposit names one or two assets of the pool, none of them twice; an
/// asset that it does not name is brought in the amount zero.
pub open spec fn arranged(infos: Seq<AssetInfo>, assets: Seq<Asset>) -> Result<(u128, u128), ErrorKind> {
    if assets.len() == 0 || assets.len() > 2 {
        Err(ErrorKind::InvalidNumberOfAssets(infos.len()))
    } else if !assets[0].info.same(&infos[0]) && !assets[0].info.same(&infos[1]) {
        Err(ErrorKind::InvalidAsset(assets[0].info.name()))
    } else if assets.len() == 1 {
        if assets[0].info.same(&infos[0]) {
            Ok((assets[0].amount, 0u128))
        } else {
            Ok((0u128, assets[0].amount))
        }
    } else if assets[0].info.same(&assets[1].info) {
        Err(ErrorKind::DoublingAssets)
    } else if !assets[1].info.same(&infos[0]) && !assets[1].info.same(&infos[1]) {
        Err(ErrorKind::InvalidAsset(assets[1].info.name()))
    } else if assets[0].info.same(&infos[0]) {
        Ok((assets[0].amount, assets[1].amount))
    } else {
        Ok((assets[1].amount, assets[0].amount))
    }
}

/// The view of a pair of amounts or its refusal.
pub open spec fn amounts_result(r: Result<[u128; 2], ContractError>) -> Result<(u128, u128), ErrorKind> {
    match r {
        Ok(a) => Ok((a[0], a[1])),
        Err(e) => Err(e@),
    }
}

/// Brings the assets of a deposit into the order of the pool's assets.
pub fn arrange_deposits(infos: &Vec<AssetInfo>, assets: &Vec<Asset>) -> (r: Result<
    [u128; 2],
    ContractError,
>)
    requires
        infos.len() == 2,
    ensures
        amounts_result(r) == arranged(infos@, assets@),
{
    if assets.len() == 0 || assets.len() > 2 {
        return Err(ContractError::InvalidNumberOfAssets(infos.len()));
    }
    let first_is_first = assets[0].info.equal(&infos[0]);
    if !first_is_first && !assets[0].info.equal(&infos[1]) {
        return Err(ContractError::InvalidAsset(assets[0].info.to_string()));
    }
    if assets.len() == 1 {
        if first_is_first {
            return Ok([assets[0].amount, 0]);
        } else {
            return Ok([0, assets[0].amount]);
        }
    }
    if assets[0].info.equal(&assets[1].info) {
        return Err(ContractError::DoublingAssets);
    }
    if !assets[1].info.equal(&infos[0]) && !assets[1].info.equal(&infos[1]) {
        return Err(ContractError::InvalidAsset(assets[1].info.to_string()));
    }
    if first_is_first {
        Ok([assets[0].amount, assets[1].amount])
    } else {
        Ok([assets[1].amount, assets[0].amount])
    }
}

/// The shares of the first deposit into a pool whose invariant it brings to
/// `new_d`: the value of the invariant in share units, less the shares that
/// stay locked. A deposit that is worth no more than those is refused.
pub open spec fn first_share_value(new_d: nat, price_scale: nat) -> Result<nat, ErrorKind> {
    match xcp_value(new_d, price_scale) {
        None => Err(ErrorKind::Overflow),
        Some(xcp) => if xcp <= locked_value() {
            Err(ErrorKind::MinimumLiquidityAmountError)
        } else {
            Ok((xcp - locked_value()) as nat)
        },
    }
}

/// The shares of the first deposit.
pub fn first_share(new_d: Dec256, price_scale: Dec256) -> (r: Result<Dec256, ContractError>)
    ensures
        dec_result(r) == first_share_value(new_d@, price_scale@),
{
    let xcp = match get_xcp(new_d, price_scale) {
        Some(v) => v,
        None => {
            return Err(ContractError::Overflow);
        },
    };
    let locked = Dec256::with_precision(MINIMUM_LIQUIDITY_AMOUNT, LP_TOKEN_PRECISION);
    match xcp.checked_sub(locked) {
        Some(mint) => if mint.is_zero() {
            Err(ContractError::MinimumLiquidityAmountError)
        } else {
            Ok(mint)
        },
        None => Err(ContractError::MinimumLiquidityAmountError),
    }
}

/// The shares of a deposit that raises the invariant of a pool with
/// `total_share` shares out from `old_d` to `new_d`: the shares out grown as
/// the invariant grows, less the shares out, less the fee on the part of the
/// deposit that is out of balance.
pub open spec fn next_share_value(total_share: nat, new_d: nat, old_d: nat, fee: Option<nat>) -> Option<
    nat,
> {
    let grown = over_v(times_v(Some(total_share), Some(new_d)), Some(old_d));
    times_v(less_v(grown, Some(total_share)), minus_v(Some(unit()), fee))
}

/// The shares of a deposit into a pool that has shares out.
pub fn next_share(total_share: Dec256, new_d: Dec256, old_d: Dec256, fee: Option<Dec256>) -> (r:
    Option<Dec256>)
    ensures
        val(r) == next_share_value(total_share@, new_d@, old_d@, val(fee)),
{
    let grown = over(times(Some(total_share), Some(new_d)), Some(old_d));
    times(less(grown, Some(total_share)), minus(Some(Dec256::one()), fee))
}

/// A deposit as numbers: the shares that it mints, its slippage, and the
/// prices that it leaves.
pub struct ProvideView {
    pub share: nat,
    pub slippage: nat,
    pub price: PriceView,
}

/// The prices of a pool that takes its first deposit: both profits start
/// at one.
pub open spec fn opened(price: PriceView) -> PriceView {
    PriceView { xcp_profit: unit(), xcp_profit_real: unit(), ..price }
}

/// The shares of a deposit of `d0` and `d1` into a pool that holds `p0` and
/// `p1` and has `total_share` shares out, where the deposit brings the
/// balances, in units of the first asset, to `x0` and `x1` and the invariant
/// to `new_d`.
pub open spec fn share_value(
    p0: nat,
    p1: nat,
    d0: nat,
    d1: nat,
    x0: nat,
    x1: nat,
    new_d: nat,
    total_share: nat,
    ramp: Ramp,
    price: PriceView,
    params: PoolParams,
    now: u64,
) -> Result<nat, ErrorKind> {
    let price_scale = price.price_scale;
    if total_share == 0 {
        first_share_value(new_d, price_scale)
    } else {
        match times_v(Some(p1), Some(price_scale)) {
            None => Err(ErrorKind::Overflow),
            Some(old_x1) => match solved(p0, old_x1, ramp.current_value(now)) {
                None => Err(ErrorKind::ConvergenceFailure),
                Some(old_d) => match times_v(Some(d1), Some(price_scale)) {
                    None => Err(ErrorKind::Overflow),
                    Some(scaled) => match next_share_value(
                        scaled_value(total_share, LP_TOKEN_PRECISION as nat),
                        new_d,
                        old_d,
                        provide_fee_value(params, d0, scaled, x0, x1),
                    ) {
                        None => Err(ErrorKind::Overflow),
                        Some(share) => Ok(share),
                    },
                },
            },
        }
    }
}

/// The slippage and the prices of a deposit that mints `share`. The
/// slippage is held against the caller's bound. Where the deposit differs
/// from a deposit in balance by the least trade size or more in both assets,
/// the oracle moves with the price that the difference implies; else the
/// prices stay.
pub open spec fn finish_value(
    d0: nat,
    d1: nat,
    x0: nat,
    x1: nat,
    share: nat,
    total_share: nat,
    price: PriceView,
    ramp: Ramp,
    params: PoolParams,
    now: u64,
    slippage_tolerance: Option<u128>,
) -> Result<ProvideView, ErrorKind> {
    let total = plus_v(Some(scaled_value(total_share, LP_TOKEN_PRECISION as nat)), Some(share));
    let part = over_v(Some(share), total);
    let even0 = times_v(Some(x0), part);
    let even1 = over_v(times_v(Some(x1), part), Some(price.price_scale));
    match (apart_v(Some(d0), even0), apart_v(Some(d1), even1), total) {
        (Some(off0), Some(off1), Some(all)) => match slippage_check(
            d0,
            d1,
            share,
            price.price_scale,
            price.xcp_profit_real,
            slippage_tolerance,
        ) {
            Err(e) => Err(e),
            Ok(slippage) => if off0 >= MIN_TRADE_SIZE && off1 >= MIN_TRADE_SIZE {
                match over_v(Some(off0), Some(off1)) {
                    None => Err(ErrorKind::Overflow),
                    Some(last) => match repeg_value(
                        price,
                        params,
                        ramp.current_value(now),
                        ramp.future_time as nat,
                        now as nat,
                        all,
                        x0,
                        x1,
                        last,
                    ) {
                        Err(e) => Err(e),
                        Ok(next) => Ok(ProvideView { share, slippage, price: next }),
                    },
                }
            } else {
                Ok(ProvideView { share, slippage, price })
            },
        },
        _ => Err(ErrorKind::Overflow),
    }
}

/// A deposit of the decimals `d0` and `d1` into a pool that holds `p0` and
/// `p1`, at the time `now`, with `total_share` shares out. The first deposit
/// must bring both assets.
#[verifier::opaque]
pub open spec fn provide_value(
    p0: nat,
    p1: nat,
    d0: nat,
    d1: nat,
    total_share: nat,
    ramp: Ramp,
    price: PriceView,
    params: PoolParams,
    now: u64,
    slippage_tolerance: Option<u128>,
) -> Result<ProvideView, ErrorKind> {
    if total_share == 0 && (d0 == 0 || d1 == 0) {
        Err(ErrorKind::InvalidZeroAmount)
    } else {
        match (
            plus_v(Some(p0), Some(d0)),
            times_v(plus_v(Some(p1), Some(d1)), Some(price.price_scale)),
        ) {
            (Some(x0), Some(x1)) => match solved(x0, x1, ramp.current_value(now)) {
                None => Err(ErrorKind::ConvergenceFailure),
                Some(new_d) => match share_value(
                    p0,
                    p1,
                    d0,
                    d1,
                    x0,
                    x1,
                    new_d,
                    total_share,
                    ramp,
                    price,
                    params,
                    now,
                ) {
                    Err(e) => Err(e),
                    Ok(share) => finish_value(
                        d0,
                        d1,
                        x0,
                        x1,
                        share,
                        total_share,
                        if total_share == 0 {
                            opened(price)
                        } else {
                            price
                        },
                        ramp,
                        params,
                        now,
                        slippage_tolerance,
                    ),
                },
            },
            _ => Err(ErrorKind::Overflow),
        }
    }
}

/// A deposit: the shares that it mints, its slippage, and the prices that
/// it leaves.
#[derive(Clone, Copy, Debug)]
pub struct Provided {
    pub share: Dec256,
    pub slippage: Dec256,
    pub price: PriceState,
}

impl View for Provided {
    type V = ProvideView;

    open spec fn view(&self) -> ProvideView {
        ProvideView { share: self.share@, slippage: self.slippage@, price: self.price@ }
    }
}

/// The view of a deposit or its refusal.
pub open spec fn provided_result(r: Result<Provided, ContractError>) -> Result<ProvideView, ErrorKind> {
    match r {
        Ok(p) => Ok(p@),
        Err(e) => Err(e@),
    }
}

/// The slippage and the prices of a deposit that mints `share`.
pub fn finish_provide(
    deposits: &[Dec256; 2],
    xp: &[Dec256; 2],
    share: Dec256,
    total_share: u128,
    price: PriceState,
    state: &PoolState,
    params: &PoolParams,
    now: u64,
    slippage_tolerance: Option<u128>,
) -> (r: Result<Provided, ContractError>)
    ensures
        provided_result(r) == finish_value(
            deposits[0]@,
            deposits[1]@,
            xp[0]@,
            xp[1]@,
            share@,
            total_share as nat,
            price@,
            state.ramp,
            *params,
            now,
            slippage_tolerance,
        ),
{
    let out = Dec256::with_precision(total_share, LP_TOKEN_PRECISION);
    let total = plus(Some(out), Some(share));
    let part = over(Some(share), total);
    let even0 = times(Some(xp[0]), part);
    let even1 = over(times(Some(xp[1]), part), Some(price.price_scale));
    match (apart(Some(deposits[0]), even0), apart(Some(deposits[1]), even1), total) {
        (Some(off0), Some(off1), Some(all)) => {
            let slippage = match assert_slippage_tolerance(
                deposits,
                share,
                price.price_scale,
                price.xcp_profit_real,
                slippage_tolerance,
            ) {
                Ok(s) => s,
                Err(e) => {
                    return Err(e);
                },
            };
            let least = Dec256::raw(MIN_TRADE_SIZE);
            if least.le(off0) && least.le(off1) {
                let last = match off0.checked_div(off1) {
                    Some(v) => v,
                    None => {
                        return Err(ContractError::Overflow);
                    },
                };
                let moved = PoolState { ramp: state.ramp, price_state: price };
                match moved.next_price(params, now, all, xp, last) {
                    Ok(next) => Ok(Provided { share, slippage, price: next }),
                    Err(e) => Err(e),
                }
            } else {
                Ok(Provided { share, slippage, price })
            }
        },
        _ => Err(ContractError::Overflow),
    }
}

/// A deposit of the decimals `deposits` into a pool that holds the decimals
/// `pools`, each in units of its own asset.
pub fn provide(
    pools: &[Dec256; 2],
    deposits: &[Dec256; 2],
    total_share: u128,
    state: &PoolState,
    params: &PoolParams,
    now: u64,
    slippage_tolerance: Option<u128>,
) -> (r: Result<Provided, ContractError>)
    ensures
        provided_result(r) == provide_value(
            pools[0]@,
            pools[1]@,
            deposits[0]@,
            deposits[1]@,
            total_share as nat,
            state.ramp,
            state.price_state@,
            *params,
            now,
            slippage_tolerance,
        ),
{
    proof {
        reveal(provide_value);
    }
    let price = state.price_state;
    let scale = Some(price.price_scale);
    if total_share == 0 && (deposits[0].is_zero() || deposits[1].is_zero()) {
        return Err(ContractError::InvalidZeroAmount);
    }
    let x0 = plus(Some(pools[0]), Some(deposits[0]));
    let x1 = times(plus(Some(pools[1]), Some(deposits[1])), scale);
    let xp = match (x0, x1) {
        (Some(a), Some(b)) => [a, b],
        _ => {
            return Err(ContractError::Overflow);
        },
    };
    let pair = state.ramp.current(now);
    let new_d = match calc_d(&xp, &pair) {
        Ok(d) => d,
        Err(e) => {
            return Err(e);
        },
    };
    if total_share == 0 {
        let share = match first_share(new_d, price.price_scale) {
            Ok(s) => s,
            Err(e) => {
                return Err(e);
            },
        };
        let opened = PriceState {
            xcp_profit: Dec256::one(),
            xcp_profit_real: Dec256::one(),
            ..price
        };
        finish_provide(
            deposits,
            &xp,
            share,
            total_share,
            opened,
            state,
            params,
            now,
            slippage_tolerance,
        )
    } else {
        let old_x1 = match times(Some(pools[1]), scale) {
            Some(v) => v,
            None => {
                return Err(ContractError::Overflow);
            },
        };
        let old_d = match calc_d(&[pools[0], old_x1], &pair) {
            Ok(d) => d,
            Err(e) => {
                return Err(e);
            },
        };
        let scaled = match times(Some(deposits[1]), scale) {
            Some(v) => v,
            None => {
                return Err(ContractError::Overflow);
            },
        };
        let fee = calc_provide_fee(&[deposits[0], scaled], &xp, params);
        let out = Dec256::with_precision(total_share, LP_TOKEN_PRECISION);
        let share = match next_share(out, new_d, old_d, fee) {
            Some(s) => s,
            None => {
                return Err(ContractError::Overflow);
            },
        };
        finish_provide(
            deposits,
            &xp,
            share,
            total_share,
            price,
            state,
            params,
            now,
            slippage_tolerance,
        )
    }
}

/// A deposit that was made, as numbers.
pub struct ProvideFlowView {
    /// The shares minted for the depositor, in the share token's smallest
    /// unit.
    pub share: nat,
    /// The shares minted to stay locked.
    pub locked: nat,
    /// The slippage of the deposit.
    pub slippage: nat,
    /// What the deposit brings of the pool's first and second asset.
    pub deposits: (u128, u128),
    /// The pool's balances after the deposit.
    pub balances: (nat, nat),
    /// The pool's prices after the deposit.
    pub price: PriceView,
}

/// A deposit that was made.
#[derive(Clone, Copy, Debug)]
pub struct ProvideOutcome {
    /// The shares minted for the depositor, in the share token's smallest
    /// unit.
    pub share: u128,
    /// The shares minted to stay locked.
    pub locked: u128,
    /// The slippage of the deposit.
    pub slippage: Dec256,
    /// What the deposit brings of the pool's first and second asset.
    pub deposits: [u128; 2],
}

/// A deposit of `assets` into the pool at the time `now`, with
/// `total_share` shares out: the assets are brought into the pool's order
/// and, like the pool's balances, taken as decimals at their recorded
/// precisions; the shares are computed and cut to the share token's
/// precision; and the pool's balances grow by what was brought. The first
/// deposit also mints the shares that stay locked.
pub open spec fn provide_flow(
    pool: PoolView,
    precisions: Precisions,
    now: u64,
    assets: Seq<Asset>,
    slippage_tolerance: Option<u128>,
    total_share: u128,
) -> Result<ProvideFlowView, ErrorKind> {
    let infos = pool.asset_infos;
    match arranged(infos, assets) {
        Err(e) => Err(e),
        Ok(brought) => match (
            recorded(precisions.0@, infos[0].name()),
            recorded(precisions.0@, infos[1].name()),
        ) {
            (Some(q0), Some(q1)) => match provide_value(
                scaled_value(pool.balances[0].amount as nat, q0 as nat),
                scaled_value(pool.balances[1].amount as nat, q1 as nat),
                scaled_value(brought.0 as nat, q0 as nat),
                scaled_value(brought.1 as nat, q1 as nat),
                total_share as nat,
                pool.ramp,
                pool.price,
                pool.params,
                now,
                slippage_tolerance,
            ) {
                Err(e) => Err(e),
                Ok(v) => match uint_value(v.share, LP_TOKEN_PRECISION as nat) {
                    None => Err(ErrorKind::ConversionOverflow),
                    Some(minted) => if pool.balances[0].amount + brought.0 > u128::MAX
                        || pool.balances[1].amount + brought.1 > u128::MAX {
                        Err(ErrorKind::Overflow)
                    } else {
                        Ok(
                            ProvideFlowView {
                                share: minted,
                                locked: if total_share == 0 {
                                    MINIMUM_LIQUIDITY_AMOUNT as nat
                                } else {
                                    0
                                },
                                slippage: v.slippage,
                                deposits: brought,
                                balances: (
                                    (pool.balances[0].amount + brought.0) as nat,
                                    (pool.balances[1].amount + brought.1) as nat,
                                ),
                                price: v.price,
                            },
                        )
                    },
                },
            },
            (None, _) => Err(ErrorKind::InvalidAsset(infos[0].name())),
            (_, None) => Err(ErrorKind::InvalidAsset(infos[1].name())),
        },
    }
}

/// The pool with both balances and the prices replaced.
pub open spec fn with_balances(pool: PoolView, balances: (nat, nat), price: PriceView) -> PoolView {
    PoolView {
        balances: with_amount(with_amount(pool.balances, 0, balances.0 as u128), 1, balances.1 as u128),
        price,
        ..pool
    }
}

/// Whether an outcome is the deposit `v`.
pub open spec fn provide_matches(o: ProvideOutcome, v: ProvideFlowView) -> bool {
    &&& o.share == v.share
    &&& o.locked == v.locked
    &&& o.slippage@ == v.slippage
    &&& (o.deposits[0], o.deposits[1]) == v.deposits
}

/// Deposits `assets` into the pool. A refusal leaves the pool as it was.
pub fn execute_provide_liquidity(
    pool: &mut Pool,
    precisions: &Precisions,
    now: u64,
    assets: &Vec<Asset>,
    slippage_tolerance: Option<u128>,
    total_share: u128,
) -> (r: Result<ProvideOutcome, ContractError>)
    requires
        old(pool).wf(),
    ensures
        final(pool).wf(),
        match provide_flow(
            old(pool)@,
            *precisions,
            now,
            assets@,
            slippage_tolerance,
            total_share,
        ) {
            Ok(v) => r matches Ok(o) && provide_matches(o, v) && final(pool)@ == with_balances(
                old(pool)@,
                v.balances,
                v.price,
            ),
            Err(e) => r matches Err(f) && f@ == e && *final(pool) == *old(pool),
        },
{
    let brought = match arrange_deposits(&pool.config.pair_info.asset_infos, assets) {
        Ok(b) => b,
        Err(e) => {
            return Err(e);
        },
    };
    let q0 = match precisions.get_precision(&pool.config.pair_info.asset_infos[0]) {
        Ok(q) => q,
        Err(e) => {
            return Err(e);
        },
    };
    let q1 = match precisions.get_precision(&pool.config.pair_info.asset_infos[1]) {
        Ok(q) => q,
        Err(e) => {
            return Err(e);
        },
    };
    let pools = [
        Dec256::with_precision(pool.balances[0].amount, q0),
        Dec256::with_precision(pool.balances[1].amount, q1),
    ];
    let deposits = [Dec256::with_precision(brought[0], q0), Dec256::with_precision(brought[1], q1)];
    let provided = match provide(
        &pools,
        &deposits,
        total_share,
        &pool.config.pool_state,
        &pool.config.pool_params,
        now,
        slippage_tolerance,
    ) {
        Ok(p) => p,
        Err(e) => {
            return Err(e);
        },
    };
    let minted = match provided.share.to_uint(LP_TOKEN_PRECISION) {
        Some(m) => m,
        None => {
            return Err(ContractError::ConversionOverflow);
        },
    };
    let grown0 = pool.balances[0].amount.checked_add(brought[0]);
    let grown1 = pool.balances[1].amount.checked_add(brought[1]);
    match (grown0, grown1) {
        (Some(g0), Some(g1)) => {
            pool.balances[0].amount = g0;
            pool.balances[1].amount = g1;
            pool.config.pool_state.price_state = provided.price;
            proof {
                assert(pool.balances@ =~= with_amount(
                    with_amount(old(pool).balances@, 0, g0),
                    1,
                    g1,
                ));
            }
            Ok(
                ProvideOutcome {
                    share: minted,
                    locked: if total_share == 0 {
                        MINIMUM_LIQUIDITY_AMOUNT
                    } else {
                        0
                    },
                    slippage: provided.slippage,
                    deposits: brought,
                },
            )
        },
        _ => Err(ContractError::Overflow),
    }
}

/// The part of a pool that `amount` of `total_share` shares stands for. One
/// unit of the shares is held back, and of a pool without shares nothing is
/// owed.
pub open spec fn share_part(amount: u128, total_share: u128) -> Option<nat> {
    if total_share == 0 {
        Some(0)
    } else if amount == 0 {
        over_v(Some(0), Some(total_share as nat))
    } else {
        over_v(Some((amount - 1) as nat), Some(total_share as nat))
    }
}

/// What `amount` of `total_share` shares stands for of the decimal balances
/// `p0` and `p1`.
pub open spec fn shares_in_assets(p0: nat, p1: nat, amount: u128, total_share: u128) -> (
    Option<nat>,
    Option<nat>,
) {
    let part = share_part(amount, total_share);
    (times_v(Some(p0), part), times_v(Some(p1), part))
}

/// What `amount` of `total_share` shares stands for of the decimal balances
/// `pools`.
pub fn get_share_in_assets(pools: &[Dec256; 2], amount: u128, total_share: u128) -> (r: (
    Option<Dec256>,
    Option<Dec256>,
))
    ensures
        (val(r.0), val(r.1)) == shares_in_assets(pools[0]@, pools[1]@, amount, total_share),
{
    let part = if total_share == 0 {
        Some(Dec256::zero())
    } else {
        let kept: u128 = if amount == 0 {
            0
        } else {
            amount - 1
        };
        over(Some(Dec256::raw(kept)), Some(Dec256::raw(total_share)))
    };
    (times(Some(pools[0]), part), times(Some(pools[1]), part))
}

/// A withdrawal as numbers: the decimal refunds and the real profit that the
/// withdrawal leaves.
pub struct WithdrawView {
    pub refund0: nat,
    pub refund1: nat,
    pub xcp_profit_real: nat,
}

/// A withdrawal of `amount` of `total_share` shares from a pool that holds
/// the decimals `p0` and `p1`: the refunds are the shares' part of the
/// balances, and the real profit is the value of the invariant of what
/// stays, per share that stays.
pub open spec fn withdraw_value(
    p0: nat,
    p1: nat,
    amount: u128,
    total_share: u128,
    ramp: Ramp,
    price: PriceView,
    now: u64,
) -> Result<WithdrawView, ErrorKind> {
    let price_scale = price.price_scale;
    let refunds = shares_in_assets(p0, p1, amount, total_share);
    match (
        refunds.0,
        refunds.1,
        minus_v(Some(p0), refunds.0),
        times_v(minus_v(Some(p1), refunds.1), Some(price_scale)),
    ) {
        (Some(refund0), Some(refund1), Some(x0), Some(x1)) => match solved(
            x0,
            x1,
            ramp.current_value(now),
        ) {
            None => Err(ErrorKind::ConvergenceFailure),
            Some(d) => if amount > total_share {
                Err(ErrorKind::Overflow)
            } else {
                match over_v(
                    xcp_value(d, price_scale),
                    Some(scaled_value((total_share - amount) as nat, LP_TOKEN_PRECISION as nat)),
                ) {
                    None => Err(ErrorKind::Overflow),
                    Some(profit) => Ok(WithdrawView { refund0, refund1, xcp_profit_real: profit }),
                }
            },
        },
        _ => Err(ErrorKind::Overflow),
    }
}

/// A withdrawal: the decimal refunds and the real profit that it leaves.
#[derive(Clone, Copy, Debug)]
pub struct Withdrawn {
    pub refund0: Dec256,
    pub refund1: Dec256,
    pub xcp_profit_real: Dec256,
}

impl View for Withdrawn {
    type V = WithdrawView;

    open spec fn view(&self) -> WithdrawView {
        WithdrawView {
            refund0: self.refund0@,
            refund1: self.refund1@,
            xcp_profit_real: self.xcp_profit_real@,
        }
    }
}

/// The view of a withdrawal or its refusal.
pub open spec fn withdrawn_result(r: Result<Withdrawn, ContractError>) -> Result<
    WithdrawView,
    ErrorKind,
> {
    match r {
        Ok(w) => Ok(w@),
        Err(e) => Err(e@),
    }
}

/// A withdrawal of `amount` of `total_share` shares from a pool that holds
/// the decimals `pools`, each in units of its own asset.
pub fn withdraw(pools: &[Dec256; 2], amount: u128, total_share: u128, state: &PoolState, now: u64) -> (r:
    Result<Withdrawn, ContractError>)
    ensures
        withdrawn_result(r) == withdraw_value(
            pools[0]@,
            pools[1]@,
            amount,
            total_share,
            state.ramp,
            state.price_state@,
            now,
        ),
{
    let scale = state.price_state.price_scale;
    let refunds = get_share_in_assets(pools, amount, total_share);
    let x0 = minus(Some(pools[0]), refunds.0);
    let x1 = times(minus(Some(pools[1]), refunds.1), Some(scale));
    match (refunds.0, refunds.1, x0, x1) {
        (Some(refund0), Some(refund1), Some(a), Some(b)) => {
            let pair = state.ramp.current(now);
            let d = match calc_d(&[a, b], &pair) {
                Ok(d) => d,
                Err(e) => {
                    return Err(e);
                },
            };
            if amount > total_share {
                return Err(ContractError::Overflow);
            }
            let left = Dec256::with_precision(total_share - amount, LP_TOKEN_PRECISION);
            match over(get_xcp(d, scale), Some(left)) {
                Some(profit) => Ok(Withdrawn { refund0, refund1, xcp_profit_real: profit }),
                None => Err(ContractError::Overflow),
            }
        },
        _ => Err(ContractError::Overflow),
    }
}

/// A withdrawal that was made, as numbers.
pub struct WithdrawFlowView {
    /// What is given back of the pool's first and second asset.
    pub refunds: (nat, nat),
    /// The pool's balances after the withdrawal.
    pub balances: (nat, nat),
    /// The real profit that the withdrawal leaves.
    pub xcp_profit_real: nat,
}

/// A withdrawal of `amount` of `total_share` shares from the pool at the
/// time `now`, asked for by `sender`. Only the share token may ask. The
/// balances are taken as decimals at their recorded precisions, the refunds
/// are cut back to these precisions, and the pool's balances shrink by what
/// is given back.
pub open spec fn withdraw_flow(
    pool: PoolView,
    precisions: Precisions,
    now: u64,
    sender: Seq<char>,
    amount: u128,
    total_share: u128,
) -> Result<WithdrawFlowView, ErrorKind> {
    let infos = pool.asset_infos;
    if sender != pool.liquidity_token@ {
        Err(ErrorKind::Unauthorized)
    } else {
        match (recorded(precisions.0@, infos[0].name()), recorded(precisions.0@, infos[1].name())) {
            (Some(q0), Some(q1)) => match withdraw_value(
                scaled_value(pool.balances[0].amount as nat, q0 as nat),
                scaled_value(pool.balances[1].amount as nat, q1 as nat),
                amount,
                total_share,
                pool.ramp,
                pool.price,
                now,
            ) {
                Err(e) => Err(e),
                Ok(w) => match (uint_value(w.refund0, q0 as nat), uint_value(w.refund1, q1 as nat)) {
                    (Some(r0), Some(r1)) => if pool.balances[0].amount < r0
                        || pool.balances[1].amount < r1 {
                        Err(ErrorKind::Overflow)
                    } else {
                        Ok(
                            WithdrawFlowView {
                                refunds: (r0, r1),
                                balances: (
                                    (pool.balances[0].amount - r0) as nat,
                                    (pool.balances[1].amount - r1) as nat,
                                ),
                                xcp_profit_real: w.xcp_profit_real,
                            },
                        )
                    },
                    _ => Err(ErrorKind::ConversionOverflow),
                },
            },
            (None, _) => Err(ErrorKind::InvalidAsset(infos[0].name())),
            (_, None) => Err(ErrorKind::InvalidAsset(infos[1].name())),
        }
    }
}

/// Withdraws `amount` of `total_share` shares from the pool and returns what
/// is given back of the pool's first and second asset. A refusal leaves the
/// pool as it was.
pub fn execute_withdraw_liquidity(
    pool: &mut Pool,
    precisions: &Precisions,
    now: u64,
    sender: &String,
    amount: u128,
    total_share: u128,
) -> (r: Result<[u128; 2], ContractError>)
    requires
        old(pool).wf(),
    ensures
        final(pool).wf(),
        match withdraw_flow(old(pool)@, *precisions, now, sender@, amount, total_share) {
            Ok(v) => r matches Ok(o) && (o[0] as nat, o[1] as nat) == v.refunds && final(pool)@
                == with_balances(
                old(pool)@,
                v.balances,
                PriceView { xcp_profit_real: v.xcp_profit_real, ..old(pool)@.price },
            ),
            Err(e) => r matches Err(f) && f@ == e && *final(pool) == *old(pool),
        },
{
    if *sender != pool.config.pair_info.liquidity_token {
        return Err(ContractError::Unauthorized);
    }
    let q0 = match precisions.get_precision(&pool.config.pair_info.asset_infos[0]) {
        Ok(q) => q,
        Err(e) => {
            return Err(e);
        },
    };
    let q1 = match precisions.get_precision(&pool.config.pair_info.asset_infos[1]) {
        Ok(q) => q,
        Err(e) => {
            return Err(e);
        },
    };
    let pools = [
        Dec256::with_precision(pool.balances[0].amount, q0),
        Dec256::with_precision(pool.balances[1].amount, q1),
    ];
    let w = match withdraw(&pools, amount, total_share, &pool.config.pool_state, now) {
        Ok(w) => w,
        Err(e) => {
            return Err(e);
        },
    };
    match (w.refund0.to_uint(q0), w.refund1.to_uint(q1)) {
        (Some(r0), Some(r1)) => {
            let left0 = pool.balances[0].amount.checked_sub(r0);
            let left1 = pool.balances[1].amount.checked_sub(r1);
            match (left0, left1) {
                (Some(l0), Some(l1)) => {
                    pool.balances[0].amount = l0;
                    pool.balances[1].amount = l1;
                    pool.config.pool_state.price_state.xcp_profit_real = w.xcp_profit_real;
                    proof {
                        assert(pool.balances@ =~= with_amount(
                            with_amount(old(pool).balances@, 0, l0),
                            1,
                            l1,
                        ));
                    }
                    Ok([r0, r1])
                },
                _ => Err(ContractError::Overflow),
            }
        },
        _ => Err(ContractError::ConversionOverflow),
    }
}

/// The first deposit into a pool must bring both assets: with no shares
/// out, a deposit that brings nothing of one of the pool's two assets is
/// refused for its amount of zero, whatever else it brings.
pub proof fn lemma_first_deposit_needs_both(
    pool: PoolView,
    precisions: Precisions,
    now: u64,
    assets: Seq<Asset>,
    slippage_tolerance: Option<u128>,
)
    requires
        arranged(pool.asset_infos, assets) matches Ok(brought) && (brought.0 == 0 || brought.1
            == 0),
        recorded(precisions.0@, pool.asset_infos[0].name()) is Some,
        recorded(precisions.0@, pool.asset_infos[1].name()) is Some,
    ensures
        provide_flow(pool, precisions, now, assets, slippage_tolerance, 0) == Err::<
            ProvideFlowView,
            ErrorKind,
        >(ErrorKind::InvalidZeroAmount),
{
    reveal(provide_value);
    let q0 = recorded(precisions.0@, pool.asset_infos[0].name())->0;
    let q1 = recorded(precisions.0@, pool.asset_infos[1].name())->0;
    lemma_nothing_scaled(q0 as nat);
    lemma_nothing_scaled(q1 as nat);
}

/// Nothing is nothing at every precision.
pub proof fn lemma_nothing_scaled(precision: nat)
    ensures
        scaled_value(0, precision) == 0,
{
    if precision > 18 {
        vstd::arithmetic::power::lemma_pow_positive(10, (precision - 18) as nat);
    }
}

} // verus!
