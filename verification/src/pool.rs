//! Making a pool, and what can be asked of one.

use vstd::prelude::*;
use vstd::string::StringExecFns;
use crate::asset::recorded;
use crate::asset::Asset;
use crate::asset::AssetInfo;
use crate::asset::DecimalAsset;
use crate::asset::Precisions;
use crate::asset::LP_TOKEN_PRECISION;
use crate::solver::calc_d;
use crate::solver::solved;
use crate::error::ContractError;
use crate::error::ErrorKind;
use crate::error::PoolParam;
use crate::fixed::over;
use crate::fixed::over_v;
use crate::fixed::scaled_value;
use crate::fixed::times_v;
use crate::fixed::Dec256;
use crate::key::key_name;
use crate::key::key_of;
use crate::math::dec_result;
use crate::math::get_xcp;
use crate::math::xcp_value;
use crate::ramp::AmpGamma;
use crate::ramp::Ramp;
use crate::ramp::AMP_MAX;
use crate::ramp::AMP_MIN;
use crate::ramp::GAMMA_MAX;
use crate::ramp::GAMMA_MIN;
use crate::router::pool_index;
use crate::router::PoolRegistry;
use crate::state::Config;
use crate::state::PairInfo;
use crate::state::Pool;
use crate::state::PoolParams;
use crate::state::PoolState;
use crate::state::PoolView;
use crate::state::PriceState;

verus! {

/// The least fee: 0.00005.
pub const MIN_FEE: u128 = 50_000_000_000_000;

/// The greatest fee: 0.01.
pub const MAX_FEE: u128 = 10_000_000_000_000_000;

/// The greatest `fee_gamma`: 1.
pub const FEE_GAMMA_MAX: u128 = 1_000_000_000_000_000_000;

/// The greatest profit threshold of a repeg: 0.01.
pub const REPEG_PROFIT_THRESHOLD_MAX: u128 = 10_000_000_000_000_000;

/// The greatest least step of the price scale: 1.
pub const PRICE_SCALE_DELTA_MAX: u128 = 1_000_000_000_000_000_000;

/// The longest half-life of the oracle: a week.
pub const MA_HALF_TIME_MAX: u64 = 604_800;

/// New values for some of a pool's parameters.
#[derive(Clone, Copy, Debug, PartialEq, Eq, Structural)]
pub struct UpdatePoolParams {
    pub mid_fee: Option<u128>,
    pub out_fee: Option<u128>,
    pub fee_gamma: Option<u128>,
    pub repeg_profit_threshold: Option<u128>,
    pub min_price_scale_delta: Option<u128>,
    pub ma_half_time: Option<u64>,
}

/// The parameters after an update. The new values are looked at in the
/// order of the fields; each must lie within its bounds, and a new outer
/// fee must exceed the middle fee that then stands.
pub open spec fn updated_params(before: PoolParams, update: UpdatePoolParams) -> Result<
    PoolParams,
    ErrorKind,
> {
    let mid_fee = match update.mid_fee {
        Some(v) => v,
        None => before.mid_fee,
    };
    if update.mid_fee matches Some(v) && !(MIN_FEE <= v <= MAX_FEE) {
        Err(ErrorKind::IncorrectPoolParam(PoolParam::MidFee))
    } else if update.out_fee matches Some(v) && !(MIN_FEE <= v <= MAX_FEE) {
        Err(ErrorKind::IncorrectPoolParam(PoolParam::OutFee))
    } else if update.out_fee matches Some(v) && v <= mid_fee {
        Err(ErrorKind::FeeOrder)
    } else if update.fee_gamma matches Some(v) && v > FEE_GAMMA_MAX {
        Err(ErrorKind::IncorrectPoolParam(PoolParam::FeeGamma))
    } else if update.repeg_profit_threshold matches Some(v) && v > REPEG_PROFIT_THRESHOLD_MAX {
        Err(ErrorKind::IncorrectPoolParam(PoolParam::RepegProfitThreshold))
    } else if update.min_price_scale_delta matches Some(v) && v > PRICE_SCALE_DELTA_MAX {
        Err(ErrorKind::IncorrectPoolParam(PoolParam::MinPriceScaleDelta))
    } else if update.ma_half_time matches Some(v) && !(1 <= v <= MA_HALF_TIME_MAX) {
        Err(ErrorKind::IncorrectPoolParam(PoolParam::MaHalfTime))
    } else {
        Ok(
            PoolParams {
                mid_fee,
                out_fee: match update.out_fee {
                    Some(v) => v,
                    None => before.out_fee,
                },
                fee_gamma: match update.fee_gamma {
                    Some(v) => v,
                    None => before.fee_gamma,
                },
                repeg_profit_threshold: match update.repeg_profit_threshold {
                    Some(v) => v,
                    None => before.repeg_profit_threshold,
                },
                min_price_scale_delta: match update.min_price_scale_delta {
                    Some(v) => v,
                    None => before.min_price_scale_delta,
                },
                ma_half_time: match update.ma_half_time {
                    Some(v) => v,
                    None => before.ma_half_time,
                },
            },
        )
    }
}

/// An update of parameters that are within their bounds leaves them
/// within their bounds, and so does an update of all parameters.
pub proof fn lemma_update_keeps_bounds(before: PoolParams, update: UpdatePoolParams)
    ensures
        updated_params(before, update) matches Ok(p) ==> (before.in_bounds() || (
        update.mid_fee is Some && update.out_fee is Some && update.fee_gamma is Some
            && update.repeg_profit_threshold is Some && update.min_price_scale_delta is Some
            && update.ma_half_time is Some)) ==> p.in_bounds(),
{
}

impl PoolParams {
    /// Whether every parameter lies within its bounds.
    pub open spec fn in_bounds(self) -> bool {
        &&& MIN_FEE <= self.mid_fee <= MAX_FEE
        &&& MIN_FEE <= self.out_fee <= MAX_FEE
        &&& self.fee_gamma <= FEE_GAMMA_MAX
        &&& self.repeg_profit_threshold <= REPEG_PROFIT_THRESHOLD_MAX
        &&& self.min_price_scale_delta <= PRICE_SCALE_DELTA_MAX
        &&& 1 <= self.ma_half_time <= MA_HALF_TIME_MAX
    }

    /// Parameters that are all zero, to be updated before use.
    pub fn empty() -> (r: PoolParams)
        ensures
            r == (PoolParams {
                mid_fee: 0,
                out_fee: 0,
                fee_gamma: 0,
                repeg_profit_threshold: 0,
                min_price_scale_delta: 0,
                ma_half_time: 0,
            }),
    {
        PoolParams {
            mid_fee: 0,
            out_fee: 0,
            fee_gamma: 0,
            repeg_profit_threshold: 0,
            min_price_scale_delta: 0,
            ma_half_time: 0,
        }
    }

    /// Takes over the new values, if all of them are in order. A refusal
    /// leaves the parameters as they were.
    pub fn update_params(&mut self, update: UpdatePoolParams) -> (r: Result<(), ContractError>)
        ensures
            match updated_params(*old(self), update) {
                Ok(p) => r is Ok && *final(self) == p,
                Err(e) => r matches Err(f) && f@ == e && *final(self) == *old(self),
            },
    {
        let mut next = *self;
        if let Some(v) = update.mid_fee {
            if v < MIN_FEE || v > MAX_FEE {
                return Err(ContractError::IncorrectPoolParam(PoolParam::MidFee));
            }
            next.mid_fee = v;
        }
        if let Some(v) = update.out_fee {
            if v < MIN_FEE || v > MAX_FEE {
                return Err(ContractError::IncorrectPoolParam(PoolParam::OutFee));
            }
            if v <= next.mid_fee {
                return Err(ContractError::FeeOrder);
            }
            next.out_fee = v;
        }
        if let Some(v) = update.fee_gamma {
            if v > FEE_GAMMA_MAX {
                return Err(ContractError::IncorrectPoolParam(PoolParam::FeeGamma));
            }
            next.fee_gamma = v;
        }
        if let Some(v) = update.repeg_profit_threshold {
            if v > REPEG_PROFIT_THRESHOLD_MAX {
                return Err(ContractError::IncorrectPoolParam(PoolParam::RepegProfitThreshold));
            }
            next.repeg_profit_threshold = v;
        }
        if let Some(v) = update.min_price_scale_delta {
            if v > PRICE_SCALE_DELTA_MAX {
                return Err(ContractError::IncorrectPoolParam(PoolParam::MinPriceScaleDelta));
            }
            next.min_price_scale_delta = v;
        }
        if let Some(v) = update.ma_half_time {
            if v < 1 || v > MA_HALF_TIME_MAX {
                return Err(ContractError::IncorrectPoolParam(PoolParam::MaHalfTime));
            }
            next.ma_half_time = v;
        }
        *self = next;
        Ok(())
    }
}

/// The parameters that a pool is made with. The decimals are held as their
/// atomics.
#[derive(Clone, Copy, Debug, PartialEq, Eq, Structural)]
pub struct ConcentratedPoolParams {
    pub amp: u128,
    pub gamma: u128,
    pub mid_fee: u128,
    pub out_fee: u128,
    pub fee_gamma: u128,
    pub repeg_profit_threshold: u128,
    pub min_price_scale_delta: u128,
    /// The price of the second asset in units of the first.
    pub price_scale: u128,
    pub ma_half_time: u64,
    pub track_asset_balances: Option<bool>,
}

impl ConcentratedPoolParams {
    /// The parameters as an update of all of a pool's parameters.
    pub open spec fn as_update(self) -> UpdatePoolParams {
        UpdatePoolParams {
            mid_fee: Some(self.mid_fee),
            out_fee: Some(self.out_fee),
            fee_gamma: Some(self.fee_gamma),
            repeg_profit_threshold: Some(self.repeg_profit_threshold),
            min_price_scale_delta: Some(self.min_price_scale_delta),
            ma_half_time: Some(self.ma_half_time),
        }
    }
}

/// The first of the first `upto` assets that is not named as its kind asks.
pub open spec fn first_ill_named(infos: Seq<AssetInfo>, upto: int) -> Option<Seq<char>>
    decreases upto,
{
    if upto <= 0 {
        None
    } else {
        match first_ill_named(infos, upto - 1) {
            Some(n) => Some(n),
            None => if infos[upto - 1].well_named() {
                None
            } else {
                Some(infos[upto - 1].name())
            },
        }
    }
}

/// What stands against making a pool of the given assets with the given
/// parameters: other than two assets, the same asset twice, an asset that is
/// not named as its kind asks, no parameters, a price scale of zero, and
/// fees, repeg rules or curve parameters out of bounds.
pub open spec fn create_check(infos: Seq<AssetInfo>, init_params: Option<ConcentratedPoolParams>) -> Result<
    PoolParams,
    ErrorKind,
> {
    if infos.len() != 2 {
        Err(ErrorKind::AssetCount)
    } else if infos[0].same(&infos[1]) {
        Err(ErrorKind::DoublingAssets)
    } else if first_ill_named(infos, 2) is Some {
        Err(ErrorKind::InvalidDenom(first_ill_named(infos, 2)->0))
    } else {
        match init_params {
            None => Err(ErrorKind::InitParamsNotFound),
            Some(p) => if p.price_scale == 0 {
                Err(ErrorKind::ZeroPriceScale)
            } else {
                match updated_params(
                    PoolParams {
                        mid_fee: 0,
                        out_fee: 0,
                        fee_gamma: 0,
                        repeg_profit_threshold: 0,
                        min_price_scale_delta: 0,
                        ma_half_time: 0,
                    },
                    p.as_update(),
                ) {
                    Err(e) => Err(e),
                    Ok(params) => if !(AMP_MIN <= p.amp <= AMP_MAX) {
                        Err(ErrorKind::IncorrectPoolParam(PoolParam::Amp))
                    } else if !(GAMMA_MIN <= p.gamma <= GAMMA_MAX) {
                        Err(ErrorKind::IncorrectPoolParam(PoolParam::Gamma))
                    } else {
                        Ok(params)
                    },
                }
            },
        }
    }
}

/// Whether `pool` is the pool made at `now` of the given assets with the
/// given parameters: it holds nothing, its ramp stands at the given curve
/// parameters at all times, its three prices are the initial price, and its
/// profits are zero.
pub open spec fn is_new_pool(
    pool: PoolView,
    now: u64,
    contract_addr: Seq<char>,
    infos: Seq<AssetInfo>,
    p: ConcentratedPoolParams,
    params: PoolParams,
) -> bool {
    &&& pool.wf()
    &&& pool.key@ == key_name(infos[0].name(), infos[1].name())
    &&& pool.asset_infos == infos
    &&& pool.contract_addr@ == contract_addr
    &&& pool.liquidity_token@ == Seq::<char>::empty()
    &&& pool.factory_addr@ == "PINA_COLADA"@
    &&& pool.params == params
    &&& pool.params.in_bounds()
    &&& pool.ramp.wf()
    &&& pool.price.price_scale > 0
    &&& pool.ramp == Ramp::level(AmpGamma { amp: p.amp, gamma: p.gamma }, now)
    &&& pool.price.oracle_price == p.price_scale
    &&& pool.price.last_price == p.price_scale
    &&& pool.price.price_scale == p.price_scale
    &&& pool.price.last_price_update == now
    &&& pool.price.xcp_profit == 0
    &&& pool.price.xcp_profit_real == 0
    &&& pool.owner is None
    &&& pool.track_asset_balances == (p.track_asset_balances == Some(true))
    &&& pool.fee_share is None
    &&& pool.balances[0] == (Asset { info: infos[0], amount: 0 })
    &&& pool.balances[1] == (Asset { info: infos[1], amount: 0 })
}

/// Makes a pool of the two given assets.
pub fn create_pool(
    now: u64,
    contract_addr: String,
    init_params: Option<ConcentratedPoolParams>,
    asset_infos: Vec<AssetInfo>,
) -> (r: Result<Pool, ContractError>)
    ensures
        match create_check(asset_infos@, init_params) {
            Ok(params) => r matches Ok(pool) && is_new_pool(
                pool@,
                now,
                contract_addr@,
                asset_infos@,
                init_params->0,
                params,
            ),
            Err(e) => r matches Err(f) && f@ == e,
        },
{
    if asset_infos.len() != 2 {
        return Err(ContractError::AssetCount);
    }
    if asset_infos[0].equal(&asset_infos[1]) {
        return Err(ContractError::DoublingAssets);
    }
    proof {
        reveal_with_fuel(first_ill_named, 3);
    }
    match asset_infos[0].check() {
        Ok(_) => {},
        Err(e) => {
            return Err(e);
        },
    }
    match asset_infos[1].check() {
        Ok(_) => {},
        Err(e) => {
            return Err(e);
        },
    }
    let p = match init_params {
        Some(p) => p,
        None => {
            return Err(ContractError::InitParamsNotFound);
        },
    };
    if p.price_scale == 0 {
        return Err(ContractError::ZeroPriceScale);
    }
    let mut pool_params = PoolParams::empty();
    match pool_params.update_params(
        UpdatePoolParams {
            mid_fee: Some(p.mid_fee),
            out_fee: Some(p.out_fee),
            fee_gamma: Some(p.fee_gamma),
            repeg_profit_threshold: Some(p.repeg_profit_threshold),
            min_price_scale_delta: Some(p.min_price_scale_delta),
            ma_half_time: Some(p.ma_half_time),
        },
    ) {
        Ok(_) => {},
        Err(e) => {
            return Err(e);
        },
    }
    let future = match AmpGamma::new(p.amp, p.gamma) {
        Ok(f) => f,
        Err(e) => {
            return Err(e);
        },
    };
    let scale = Dec256::raw(p.price_scale);
    let balances = vec![
        Asset { info: asset_infos[0].duplicate(), amount: 0 },
        Asset { info: asset_infos[1].duplicate(), amount: 0 },
    ];
    let key = key_of(&asset_infos[0], &asset_infos[1]);
    Ok(
        Pool {
            key,
            config: Config {
                pair_info: PairInfo {
                    asset_infos,
                    contract_addr,
                    liquidity_token: String::new(),
                },
                factory_addr: String::from_str("PINA_COLADA"),
                pool_params,
                pool_state: PoolState {
                    ramp: Ramp { initial: future, future, initial_time: now, future_time: now },
                    price_state: PriceState {
                        oracle_price: scale,
                        last_price: scale,
                        price_scale: scale,
                        last_price_update: now,
                        xcp_profit: Dec256::zero(),
                        xcp_profit_real: Dec256::zero(),
                    },
                },
                owner: None,
                track_asset_balances: match p.track_asset_balances {
                    Some(t) => t,
                    None => false,
                },
                fee_share: None,
            },
            balances,
        },
    )
}

/// Whether no two pools are kept under one key.
pub open spec fn distinct_keys(pools: Seq<PoolView>) -> bool {
    forall|i: int, j: int|
        0 <= i < j < pools.len() ==> (#[trigger] pools[i]).key@ != (#[trigger] pools[j]).key@
}

/// Where no position is found for a key, no pool is kept under it.
pub proof fn lemma_pool_absent(pools: Seq<PoolView>, key: Seq<char>, from: int)
    requires
        0 <= from,
        pool_index(pools, key, from) is None,
    ensures
        forall|i: int| from <= i < pools.len() ==> (#[trigger] pools[i]).key@ != key,
    decreases pools.len() - from,
{
    if from < pools.len() {
        lemma_pool_absent(pools, key, from + 1);
    }
}

impl PoolRegistry {
    /// Keeps the pool under its key, in the place of the pool that was kept
    /// under this key before, if there was one. Pools that were kept under
    /// different keys still are.
    pub fn save(&mut self, pool: Pool)
        ensures
            match pool_index(old(self)@, pool.key@, 0) {
                Some(k) => final(self)@ == old(self)@.update(k, pool@),
                None => final(self)@ == old(self)@.push(pool@),
            },
            distinct_keys(old(self)@) ==> distinct_keys(final(self)@),
    {
        let ghost before = self@;
        proof {
            crate::router::lemma_pool_index(before, pool.key@, 0);
            if pool_index(before, pool.key@, 0) is None {
                lemma_pool_absent(before, pool.key@, 0);
            }
        }
        match self.find(&pool.key) {
            Some(k) => {
                let _ = self.pools.remove(k);
                self.pools.insert(k, pool);
                proof {
                    assert(self@ =~= before.update(k as int, pool@));
                }
            },
            None => {
                self.pools.push(pool);
                proof {
                    assert(self@ =~= before.push(pool@));
                }
            },
        }
    }

    /// Records the address of the share token of the pool under `key`.
    pub fn register_liquidity_token(&mut self, key: &String, token: String) -> (r: Result<
        (),
        ContractError,
    >)
        ensures
            match pool_index(old(self)@, key@, 0) {
                Some(k) => r is Ok && final(self)@ == old(self)@.update(
                    k,
                    PoolView { liquidity_token: token, ..old(self)@[k] },
                ),
                None => r matches Err(ContractError::PoolNotFound) && final(self)@ == old(self)@,
            },
    {
        let ghost before = self@;
        match self.find(key) {
            Some(k) => {
                let mut pool = self.pools.remove(k);
                assert(pool@ == before[k as int]);
                pool.config.pair_info.liquidity_token = token;
                self.pools.insert(k, pool);
                proof {
                    assert(self@ =~= before.update(
                        k as int,
                        PoolView { liquidity_token: token, ..before[k as int] },
                    ));
                }
                Ok(())
            },
            None => Err(ContractError::PoolNotFound),
        }
    }
}

/// What stands against making a pool of the given assets beside the pools
/// that are kept: what stands against making it at all, and a pool that is
/// kept under its key already.
pub open spec fn create_pair_check(
    pools: Seq<PoolView>,
    infos: Seq<AssetInfo>,
    init_params: Option<ConcentratedPoolParams>,
) -> Result<PoolParams, ErrorKind> {
    match create_check(infos, init_params) {
        Err(e) => Err(e),
        Ok(params) => if pool_index(pools, key_name(infos[0].name(), infos[1].name()), 0)
            is Some {
            Err(ErrorKind::PoolExists)
        } else {
            Ok(params)
        },
    }
}

/// Makes a pool of the two given assets, records the assets' decimal places
/// and keeps the pool under its key, which is returned. `token_decimals`
/// holds, at the position of each asset that is a token, what the token's
/// contract reports. A pool that is kept is never made anew: under a key
/// that holds a pool the call is refused. A refusal leaves the pools and the
/// precisions as they were.
pub fn execute_create_pair(
    registry: &mut PoolRegistry,
    precisions: &mut Precisions,
    now: u64,
    contract_addr: String,
    init_params: Option<ConcentratedPoolParams>,
    asset_infos: Vec<AssetInfo>,
    token_decimals: &Vec<u8>,
) -> (r: Result<String, ContractError>)
    requires
        token_decimals.len() == asset_infos.len(),
    ensures
        match create_pair_check(old(registry)@, asset_infos@, init_params) {
            Ok(params) => r matches Ok(key) && key@ == key_name(
                asset_infos[0].name(),
                asset_infos[1].name(),
            ) && final(registry)@ == old(registry)@.push(final(registry)@.last()) && is_new_pool(
                final(registry)@.last(),
                now,
                contract_addr@,
                asset_infos@,
                init_params->0,
                params,
            ) && (distinct_keys(old(registry)@) ==> distinct_keys(final(registry)@)) && forall|
                name: Seq<char>,
            | #[trigger]
                recorded(final(precisions).0@, name) == match recorded(old(precisions).0@, name) {
                    Some(q) => Some(q),
                    None => crate::asset::declared(asset_infos@, token_decimals@, name, 2),
                },
            Err(e) => r matches Err(f) && f@ == e && *final(registry) == *old(registry) && *final(precisions) == *old(precisions),
        },
{
    let infos = crate::state::duplicate_infos(&asset_infos);
    let pool = match create_pool(now, contract_addr, init_params, asset_infos) {
        Ok(p) => p,
        Err(e) => {
            return Err(e);
        },
    };
    if registry.find(&pool.key).is_some() {
        return Err(ContractError::PoolExists);
    }
    precisions.store_precisions(&infos, token_decimals);
    let key = pool.key.clone();
    registry.save(pool);
    Ok(key)
}

/// The curve parameters of a pool that was just made are those that it was
/// made with, at all times.
pub proof fn lemma_new_pool_stands(
    pool: PoolView,
    now: u64,
    contract_addr: Seq<char>,
    infos: Seq<AssetInfo>,
    p: ConcentratedPoolParams,
    params: PoolParams,
    at: u64,
)
    requires
        is_new_pool(pool, now, contract_addr, infos, p, params),
    ensures
        pool.ramp.current_value(at) == (AmpGamma { amp: p.amp, gamma: p.gamma }),
        pool.ramp.current_value(at).in_bounds(),
{
    crate::ramp::lemma_level_ramp(pool.ramp, at);
}

/// The pool's balances as decimals, each at the recorded precision of its
/// asset.
pub open spec fn pools_value(pool: PoolView, precisions: Precisions) -> Result<(nat, nat), ErrorKind> {
    match (
        recorded(precisions.0@, pool.balances[0].info.name()),
        recorded(precisions.0@, pool.balances[1].info.name()),
    ) {
        (Some(q0), Some(q1)) => Ok(
            (
                scaled_value(pool.balances[0].amount as nat, q0 as nat),
                scaled_value(pool.balances[1].amount as nat, q1 as nat),
            ),
        ),
        (None, _) => Err(ErrorKind::InvalidAsset(pool.balances[0].info.name())),
        (_, None) => Err(ErrorKind::InvalidAsset(pool.balances[1].info.name())),
    }
}

/// The pool's balances as decimals.
pub fn query_pools(pool: &Pool, precisions: &Precisions) -> (r: Result<Vec<DecimalAsset>, ContractError>)
    requires
        pool.wf(),
    ensures
        match pools_value(pool@, *precisions) {
            Ok(xs) => r matches Ok(v) && v@.len() == 2 && v@[0].info == pool.balances[0].info
                && v@[1].info == pool.balances[1].info && v@[0].amount@ == xs.0 && v@[1].amount@
                == xs.1,
            Err(e) => r matches Err(f) && f@ == e,
        },
{
    let q0 = match precisions.get_precision(&pool.balances[0].info) {
        Ok(q) => q,
        Err(e) => {
            return Err(e);
        },
    };
    let q1 = match precisions.get_precision(&pool.balances[1].info) {
        Ok(q) => q,
        Err(e) => {
            return Err(e);
        },
    };
    Ok(vec![pool.balances[0].to_decimal_asset(q0), pool.balances[1].to_decimal_asset(q1)])
}

/// The invariant of the pool at the time `now`. A pool with an empty side
/// has none.
pub open spec fn compute_d_value(pool: PoolView, precisions: Precisions, now: u64) -> Result<
    nat,
    ErrorKind,
> {
    match pools_value(pool, precisions) {
        Err(e) => Err(e),
        Ok(xs) => if xs.0 == 0 || xs.1 == 0 {
            Err(ErrorKind::InvalidZeroAmount)
        } else {
            match times_v(Some(xs.1), Some(pool.price.price_scale)) {
                None => Err(ErrorKind::Overflow),
                Some(x1) => match solved(xs.0, x1, pool.ramp.current_value(now)) {
                    None => Err(ErrorKind::ConvergenceFailure),
                    Some(d) => Ok(d),
                },
            }
        },
    }
}

/// The invariant of the pool at the time `now`.
pub fn query_compute_d(pool: &Pool, precisions: &Precisions, now: u64) -> (r: Result<
    Dec256,
    ContractError,
>)
    requires
        pool.wf(),
    ensures
        dec_result(r) == compute_d_value(pool@, *precisions, now),
{
    let xs = match query_pools(pool, precisions) {
        Ok(xs) => xs,
        Err(e) => {
            return Err(e);
        },
    };
    if xs[0].amount.is_zero() || xs[1].amount.is_zero() {
        return Err(ContractError::InvalidZeroAmount);
    }
    let x1 = match xs[1].amount.checked_mul(pool.config.pool_state.price_state.price_scale) {
        Some(v) => v,
        None => {
            return Err(ContractError::Overflow);
        },
    };
    let pair = pool.config.pool_state.get_amp_gamma(now);
    calc_d(&[xs[0].amount, x1], &pair)
}

/// The value of one share of the pool at the time `now`, with `total_share`
/// shares out: the value of the invariant in share units per share, and
/// zero for a pool without shares.
pub open spec fn lp_price_value(pool: PoolView, precisions: Precisions, now: u64, total_share: u128) -> Result<
    nat,
    ErrorKind,
> {
    if total_share == 0 {
        Ok(0)
    } else {
        match pools_value(pool, precisions) {
            Err(e) => Err(e),
            Ok(xs) => match times_v(Some(xs.1), Some(pool.price.price_scale)) {
                None => Err(ErrorKind::Overflow),
                Some(x1) => match solved(xs.0, x1, pool.ramp.current_value(now)) {
                    None => Err(ErrorKind::ConvergenceFailure),
                    Some(d) => match over_v(
                        xcp_value(d, pool.price.price_scale),
                        Some(scaled_value(total_share as nat, LP_TOKEN_PRECISION as nat)),
                    ) {
                        None => Err(ErrorKind::Overflow),
                        Some(price) => Ok(price),
                    },
                },
            },
        }
    }
}

/// The value of one share of the pool.
pub fn query_lp_price(pool: &Pool, precisions: &Precisions, now: u64, total_share: u128) -> (r:
    Result<Dec256, ContractError>)
    requires
        pool.wf(),
    ensures
        dec_result(r) == lp_price_value(pool@, *precisions, now, total_share),
{
    if total_share == 0 {
        return Ok(Dec256::zero());
    }
    let xs = match query_pools(pool, precisions) {
        Ok(xs) => xs,
        Err(e) => {
            return Err(e);
        },
    };
    let scale = pool.config.pool_state.price_state.price_scale;
    let x1 = match xs[1].amount.checked_mul(scale) {
        Some(v) => v,
        None => {
            return Err(ContractError::Overflow);
        },
    };
    let pair = pool.config.pool_state.get_amp_gamma(now);
    let d = match calc_d(&[xs[0].amount, x1], &pair) {
        Ok(d) => d,
        Err(e) => {
            return Err(e);
        },
    };
    let total_lp = Dec256::with_precision(total_share, LP_TOKEN_PRECISION);
    match over(get_xcp(d, scale), Some(total_lp)) {
        Some(price) => Ok(price),
        None => Err(ContractError::Overflow),
    }
}

/// The parameters of a pool as they stand at one time. The decimals are
/// held as their atomics.
#[derive(Clone, Copy, Debug, PartialEq, Eq, Structural)]
pub struct ConcentratedPoolConfig {
    pub amp: u128,
    pub gamma: u128,
    pub mid_fee: u128,
    pub out_fee: u128,
    pub fee_gamma: u128,
    pub repeg_profit_threshold: u128,
    pub min_price_scale_delta: u128,
    pub price_scale: u128,
    pub ma_half_time: u64,
    pub track_asset_balances: bool,
}

/// The parameters of the pool at the time `now`; refused where the price
/// scale does not fit a 128-bit decimal.
pub fn query_config(pool: &Pool, now: u64) -> (r: Result<ConcentratedPoolConfig, ContractError>)
    ensures
        pool@.price.price_scale <= u128::MAX ==> r == Ok::<ConcentratedPoolConfig, ContractError>(
            ConcentratedPoolConfig {
                amp: pool@.ramp.current_value(now).amp,
                gamma: pool@.ramp.current_value(now).gamma,
                mid_fee: pool@.params.mid_fee,
                out_fee: pool@.params.out_fee,
                fee_gamma: pool@.params.fee_gamma,
                repeg_profit_threshold: pool@.params.repeg_profit_threshold,
                min_price_scale_delta: pool@.params.min_price_scale_delta,
                price_scale: pool@.price.price_scale as u128,
                ma_half_time: pool@.params.ma_half_time,
                track_asset_balances: pool@.track_asset_balances,
            },
        ),
        pool@.price.price_scale > u128::MAX ==> r matches Err(ContractError::ConversionOverflow),
{
    let pair = pool.config.pool_state.get_amp_gamma(now);
    let price_scale = match pool.config.pool_state.price_state.price_scale.to_u128() {
        Some(v) => v,
        None => {
            return Err(ContractError::ConversionOverflow);
        },
    };
    let params = &pool.config.pool_params;
    Ok(
        ConcentratedPoolConfig {
            amp: pair.amp,
            gamma: pair.gamma,
            mid_fee: params.mid_fee,
            out_fee: params.out_fee,
            fee_gamma: params.fee_gamma,
            repeg_profit_threshold: params.repeg_profit_threshold,
            min_price_scale_delta: params.min_price_scale_delta,
            price_scale,
            ma_half_time: params.ma_half_time,
            track_asset_balances: pool.config.track_asset_balances,
        },
    )
}

/// Whether the asset is the token kept by the contract at `address`.
pub open spec fn is_token_at(info: AssetInfo, address: Seq<char>) -> bool {
    match info {
        AssetInfo::Token { contract_addr } => contract_addr@ == address,
        AssetInfo::NativeToken { .. } => false,
    }
}

/// Whether the sender is the contract of one of the pool's tokens.
pub fn check_cw20_in_pool(config: &Config, cw20_sender: &String) -> (r: Result<(), ContractError>)
    ensures
        r is Ok <==> exists|i: int|
            0 <= i < config.pair_info.asset_infos.len() && is_token_at(
                #[trigger] config.pair_info.asset_infos[i],
                cw20_sender@,
            ),
        r is Err ==> r matches Err(ContractError::Unauthorized),
{
    let infos = &config.pair_info.asset_infos;
    let mut i: usize = 0;
    while i < infos.len()
        invariant
            i <= infos.len(),
            *infos == config.pair_info.asset_infos,
            forall|j: int| 0 <= j < i ==> !is_token_at(#[trigger] infos[j], cw20_sender@),
        decreases infos.len() - i,
    {
        match &infos[i] {
            AssetInfo::Token { contract_addr } => {
                if *contract_addr == *cw20_sender {
                    assert(0 <= i < config.pair_info.asset_infos.len() && is_token_at(
                        config.pair_info.asset_infos[i as int],
                        cw20_sender@,
                    ));
                    return Ok(());
                }
            },
            AssetInfo::NativeToken { .. } => {},
        }
        i += 1;
    }
    Err(ContractError::Unauthorized)
}

} // verus!
