//! What a pool keeps between operations.

use vstd::prelude::*;
use crate::asset::Asset;
use crate::asset::AssetInfo;
use crate::error::ContractError;
use crate::fixed::Dec256;
use crate::ramp::AmpGamma;
use crate::ramp::Ramp;

verus! {

/// The fees and the repeg rules of a pool. The five decimals are held as
/// their atomics.
#[derive(Clone, Copy, Debug, PartialEq, Eq, Structural)]
pub struct PoolParams {
    /// The fee of a pool in balance.
    pub mid_fee: u128,
    /// The fee of a pool far out of balance.
    pub out_fee: u128,
    /// How fast the fee moves from the one to the other.
    pub fee_gamma: u128,
    /// The profit that a repeg must leave.
    pub repeg_profit_threshold: u128,
    /// The least step of the price scale.
    pub min_price_scale_delta: u128,
    /// The half-life of the price oracle, in seconds.
    pub ma_half_time: u64,
}

/// The prices and profits of a pool as numbers of atomics.
pub struct PriceView {
    pub oracle_price: nat,
    pub last_price: nat,
    pub price_scale: nat,
    pub last_price_update: nat,
    pub xcp_profit: nat,
    pub xcp_profit_real: nat,
}

/// The prices and profits of a pool.
#[derive(Clone, Copy, Debug)]
pub struct PriceState {
    /// The moving average of the traded price.
    pub oracle_price: Dec256,
    /// The price of the last trade.
    pub last_price: Dec256,
    /// How many units of the first asset one unit of the second counts for.
    pub price_scale: Dec256,
    /// When the oracle last moved, in seconds.
    pub last_price_update: u64,
    /// The profit from fees.
    pub xcp_profit: Dec256,
    /// The profit from fees less what repegs have cost.
    pub xcp_profit_real: Dec256,
}

impl View for PriceState {
    type V = PriceView;

    open spec fn view(&self) -> PriceView {
        PriceView {
            oracle_price: self.oracle_price@,
            last_price: self.last_price@,
            price_scale: self.price_scale@,
            last_price_update: self.last_price_update as nat,
            xcp_profit: self.xcp_profit@,
            xcp_profit_real: self.xcp_profit_real@,
        }
    }
}

/// The curve and the prices of a pool.
#[derive(Clone, Copy, Debug)]
pub struct PoolState {
    /// The ramp of the curve parameters.
    pub ramp: Ramp,
    /// The prices and profits.
    pub price_state: PriceState,
}

impl PoolState {
    /// The curve parameters in force at `now`.
    pub fn get_amp_gamma(&self, now: u64) -> (r: AmpGamma)
        ensures
            r == self.ramp.current_value(now),
    {
        self.ramp.current(now)
    }
}

/// A pool's two assets and the addresses it goes by.
#[derive(Debug)]
pub struct PairInfo {
    /// The two assets, in the order of the pool's balances.
    pub asset_infos: Vec<AssetInfo>,
    /// The address of the pool.
    pub contract_addr: String,
    /// The address of the share token.
    pub liquidity_token: String,
}

/// With whom a part of the swap fee is shared.
#[derive(Debug)]
pub struct FeeShareConfig {
    /// The part, in hundredths of a percent.
    pub bps: u16,
    /// Who receives it.
    pub recipient: String,
}

/// All that a pool keeps besides its balances.
#[derive(Debug)]
pub struct Config {
    pub pair_info: PairInfo,
    pub factory_addr: String,
    pub pool_params: PoolParams,
    pub pool_state: PoolState,
    pub owner: Option<String>,
    pub track_asset_balances: bool,
    pub fee_share: Option<FeeShareConfig>,
}

impl Config {
    /// A pool has two assets, and they differ.
    pub open spec fn wf(&self) -> bool {
        &&& self.pair_info.asset_infos.len() == 2
        &&& !self.pair_info.asset_infos[0].same(&self.pair_info.asset_infos[1])
    }
}

/// A pool: its key, its configuration and its balances.
#[derive(Debug)]
pub struct Pool {
    /// The key under which the pool is kept.
    pub key: String,
    pub config: Config,
    /// What the pool holds of each asset, in the order of
    /// `config.pair_info.asset_infos`.
    pub balances: Vec<Asset>,
}

/// A pool as contracts speak of it: its prices are taken as numbers of
/// atomics, all else as it stands.
pub struct PoolView {
    pub key: String,
    pub asset_infos: Seq<AssetInfo>,
    pub contract_addr: String,
    pub liquidity_token: String,
    pub factory_addr: String,
    pub params: PoolParams,
    pub ramp: Ramp,
    pub price: PriceView,
    pub owner: Option<String>,
    pub track_asset_balances: bool,
    pub fee_share: Option<FeeShareConfig>,
    pub balances: Seq<Asset>,
}

impl PoolView {
    /// The pool has two assets, they differ, and it holds a balance of
    /// each.
    pub open spec fn wf(self) -> bool {
        &&& self.asset_infos.len() == 2
        &&& !self.asset_infos[0].same(&self.asset_infos[1])
        &&& self.balances.len() == 2
        &&& self.balances[0].info.same(&self.asset_infos[0])
        &&& self.balances[1].info.same(&self.asset_infos[1])
    }
}

impl View for Pool {
    type V = PoolView;

    open spec fn view(&self) -> PoolView {
        PoolView {
            key: self.key,
            asset_infos: self.config.pair_info.asset_infos@,
            contract_addr: self.config.pair_info.contract_addr,
            liquidity_token: self.config.pair_info.liquidity_token,
            factory_addr: self.config.factory_addr,
            params: self.config.pool_params,
            ramp: self.config.pool_state.ramp,
            price: self.config.pool_state.price_state@,
            owner: self.config.owner,
            track_asset_balances: self.config.track_asset_balances,
            fee_share: self.config.fee_share,
            balances: self.balances@,
        }
    }
}

impl Pool {
    /// The pool is well-formed and holds a balance of each of its assets.
    pub open spec fn wf(&self) -> bool {
        self@.wf()
    }
}

impl FeeShareConfig {
    /// A copy of the value.
    pub fn duplicate(&self) -> (r: FeeShareConfig)
        ensures
            r == *self,
    {
        FeeShareConfig { bps: self.bps, recipient: self.recipient.clone() }
    }
}

/// A copy of the assets.
pub fn duplicate_infos(infos: &Vec<AssetInfo>) -> (r: Vec<AssetInfo>)
    ensures
        r@ == infos@,
{
    let mut copy: Vec<AssetInfo> = Vec::new();
    let mut i: usize = 0;
    while i < infos.len()
        invariant
            i <= infos.len(),
            copy@ == infos@.take(i as int),
        decreases infos.len() - i,
    {
        copy.push(infos[i].duplicate());
        proof {
            assert(copy@ =~= infos@.take(i + 1));
        }
        i += 1;
    }
    proof {
        assert(infos@.take(infos@.len() as int) =~= infos@);
    }
    copy
}

/// A copy of the balances.
pub fn duplicate_balances(balances: &Vec<Asset>) -> (r: Vec<Asset>)
    ensures
        r@ == balances@,
{
    let mut copy: Vec<Asset> = Vec::new();
    let mut i: usize = 0;
    while i < balances.len()
        invariant
            i <= balances.len(),
            copy@ == balances@.take(i as int),
        decreases balances.len() - i,
    {
        copy.push(balances[i].duplicate());
        proof {
            assert(copy@ =~= balances@.take(i + 1));
        }
        i += 1;
    }
    proof {
        assert(balances@.take(balances@.len() as int) =~= balances@);
    }
    copy
}

impl Pool {
    /// A copy of the pool.
    pub fn duplicate(&self) -> (r: Pool)
        ensures
            r@ == self@,
    {
        Pool {
            key: self.key.clone(),
            config: Config {
                pair_info: PairInfo {
                    asset_infos: duplicate_infos(&self.config.pair_info.asset_infos),
                    contract_addr: self.config.pair_info.contract_addr.clone(),
                    liquidity_token: self.config.pair_info.liquidity_token.clone(),
                },
                factory_addr: self.config.factory_addr.clone(),
                pool_params: self.config.pool_params,
                pool_state: self.config.pool_state,
                owner: match &self.config.owner {
                    Some(o) => Some(o.clone()),
                    None => None,
                },
                track_asset_balances: self.config.track_asset_balances,
                fee_share: match &self.config.fee_share {
                    Some(f) => Some(f.duplicate()),
                    None => None,
                },
            },
            balances: duplicate_balances(&self.balances),
        }
    }
}

/// The balances `before` with the amount at `index` replaced.
pub open spec fn with_amount(before: Seq<Asset>, index: int, amount: u128) -> Seq<Asset> {
    before.update(index, Asset { info: before[index].info, amount })
}

/// Where among the balances the asset stands: the first position that holds
/// it.
pub fn find_asset_index(balances: &Vec<Asset>, asset: &AssetInfo) -> (r: Option<usize>)
    ensures
        match r {
            Some(i) => i < balances.len() && balances[i as int].info.same(asset) && forall|j: int|
                0 <= j < i ==> !(#[trigger] balances[j]).info.same(asset),
            None => forall|j: int| 0 <= j < balances.len() ==> !(#[trigger] balances[j]).info.same(asset),
        },
{
    let mut i: usize = 0;
    while i < balances.len()
        invariant
            i <= balances.len(),
            forall|j: int| 0 <= j < i ==> !(#[trigger] balances[j]).info.same(asset),
        decreases balances.len() - i,
    {
        if balances[i].info.equal(asset) {
            return Some(i);
        }
        i += 1;
    }
    None
}

/// Adds `amount` to the balance at `index`, unless the sum leaves 128 bits.
pub fn increment_asset_balance(balances: &mut Vec<Asset>, index: usize, amount: u128) -> (r: Result<
    (),
    ContractError,
>)
    requires
        index < old(balances).len(),
    ensures
        old(balances)[index as int].amount + amount <= u128::MAX ==> r is Ok && final(balances)@
            == with_amount(
            old(balances)@,
            index as int,
            (old(balances)[index as int].amount + amount) as u128,
        ),
        old(balances)[index as int].amount + amount > u128::MAX ==> (r matches Err(
            ContractError::Overflow,
        )) && final(balances)@ == old(balances)@,
{
    match balances[index].amount.checked_add(amount) {
        Some(sum) => {
            balances[index].amount = sum;
            proof {
                assert(balances@ =~= with_amount(old(balances)@, index as int, sum));
            }
            Ok(())
        },
        None => Err(ContractError::Overflow),
    }
}

/// Takes `amount` from the balance at `index`, unless the balance is less.
pub fn decrease_asset_balance(balances: &mut Vec<Asset>, index: usize, amount: u128) -> (r: Result<
    (),
    ContractError,
>)
    requires
        index < old(balances).len(),
    ensures
        old(balances)[index as int].amount >= amount ==> r is Ok && final(balances)@
            == with_amount(
            old(balances)@,
            index as int,
            (old(balances)[index as int].amount - amount) as u128,
        ),
        old(balances)[index as int].amount < amount ==> (r matches Err(ContractError::Overflow))
            && final(balances)@ == old(balances)@,
{
    match balances[index].amount.checked_sub(amount) {
        Some(rest) => {
            balances[index].amount = rest;
            proof {
                assert(balances@ =~= with_amount(old(balances)@, index as int, rest));
            }
            Ok(())
        },
        None => Err(ContractError::Overflow),
    }
}

/// The amount at `i` among `amounts`, or zero past their end.
pub open spec fn amount_at(amounts: Seq<u128>, i: int) -> u128 {
    if 0 <= i < amounts.len() {
        amounts[i]
    } else {
        0
    }
}

/// Whether each of the balances can take the amount at its position.
pub open spec fn can_raise(before: Seq<Asset>, amounts: Seq<u128>) -> bool {
    forall|i: int|
        0 <= i < before.len() ==> (#[trigger] before[i]).amount + amount_at(amounts, i)
            <= u128::MAX
}

/// The balances, each raised by the amount at its position.
pub open spec fn raised(before: Seq<Asset>, amounts: Seq<u128>) -> Seq<Asset> {
    Seq::new(
        before.len(),
        |i: int|
            Asset { info: before[i].info, amount: (before[i].amount + amount_at(amounts, i)) as u128 },
    )
}

/// Whether each of the balances can give the amount at its position.
pub open spec fn can_lower(before: Seq<Asset>, amounts: Seq<u128>) -> bool {
    forall|i: int|
        0 <= i < before.len() ==> (#[trigger] before[i]).amount >= amount_at(amounts, i)
}

/// The balances, each lowered by the amount at its position.
pub open spec fn lowered(before: Seq<Asset>, amounts: Seq<u128>) -> Seq<Asset> {
    Seq::new(
        before.len(),
        |i: int|
            Asset { info: before[i].info, amount: (before[i].amount - amount_at(amounts, i)) as u128 },
    )
}

/// Adds to each balance the amount at its position, unless one of the sums
/// leaves 128 bits; then no balance is changed.
pub fn increment_pair_balances(balances: &mut Vec<Asset>, amounts: &Vec<u128>) -> (r: Result<
    (),
    ContractError,
>)
    requires
        amounts.len() <= old(balances).len(),
    ensures
        can_raise(old(balances)@, amounts@) ==> r is Ok && final(balances)@ == raised(
            old(balances)@,
            amounts@,
        ),
        !can_raise(old(balances)@, amounts@) ==> (r matches Err(ContractError::Overflow)) && final(balances)@ == old(balances)@,
{
    let mut i: usize = 0;
    while i < amounts.len()
        invariant
            i <= amounts.len() <= balances.len(),
            balances@ == old(balances)@,
            forall|j: int|
                0 <= j < i ==> (#[trigger] balances[j]).amount + amount_at(amounts@, j)
                    <= u128::MAX,
        decreases amounts.len() - i,
    {
        if balances[i].amount.checked_add(amounts[i]).is_none() {
            assert(balances[i as int].amount + amount_at(amounts@, i as int) > u128::MAX);
            return Err(ContractError::Overflow);
        }
        i += 1;
    }
    let mut i: usize = 0;
    while i < amounts.len()
        invariant
            i <= amounts.len() <= balances.len(),
            balances.len() == old(balances).len(),
            can_raise(old(balances)@, amounts@),
            forall|j: int|
                0 <= j < i ==> (#[trigger] balances[j]) == raised(old(balances)@, amounts@)[j],
            forall|j: int| i <= j < balances.len() ==> (#[trigger] balances[j]) == old(balances)[j],
        decreases amounts.len() - i,
    {
        let sum: u128 = balances[i].amount + amounts[i];
        balances[i].amount = sum;
        i += 1;
    }
    proof {
        assert(balances@ =~= raised(old(balances)@, amounts@));
    }
    Ok(())
}

/// Takes from each balance the amount at its position, unless one of the
/// balances is less; then no balance is changed.
pub fn decrease_pair_balances(balances: &mut Vec<Asset>, amounts: &Vec<u128>) -> (r: Result<
    (),
    ContractError,
>)
    requires
        amounts.len() <= old(balances).len(),
    ensures
        can_lower(old(balances)@, amounts@) ==> r is Ok && final(balances)@ == lowered(
            old(balances)@,
            amounts@,
        ),
        !can_lower(old(balances)@, amounts@) ==> (r matches Err(ContractError::Overflow)) && final(balances)@ == old(balances)@,
{
    let mut i: usize = 0;
    while i < amounts.len()
        invariant
            i <= amounts.len() <= balances.len(),
            balances@ == old(balances)@,
            forall|j: int| 0 <= j < i ==> (#[trigger] balances[j]).amount >= amount_at(amounts@, j),
        decreases amounts.len() - i,
    {
        if balances[i].amount < amounts[i] {
            assert(balances[i as int].amount < amount_at(amounts@, i as int));
            return Err(ContractError::Overflow);
        }
        i += 1;
    }
    let mut i: usize = 0;
    while i < amounts.len()
        invariant
            i <= amounts.len() <= balances.len(),
            balances.len() == old(balances).len(),
            can_lower(old(balances)@, amounts@),
            forall|j: int|
                0 <= j < i ==> (#[trigger] balances[j]) == lowered(old(balances)@, amounts@)[j],
            forall|j: int| i <= j < balances.len() ==> (#[trigger] balances[j]) == old(balances)[j],
        decreases amounts.len() - i,
    {
        let rest: u128 = balances[i].amount - amounts[i];
        balances[i].amount = rest;
        i += 1;
    }
    proof {
        assert(balances@ =~= lowered(old(balances)@, amounts@));
    }
    Ok(())
}

/// The balances with the amounts of the given assets, position by position.
pub open spec fn replaced(before: Seq<Asset>, assets: Seq<Asset>) -> Seq<Asset> {
    Seq::new(
        before.len(),
        |i: int|
            Asset {
                info: before[i].info,
                amount: if i < assets.len() {
                    assets[i].amount
                } else {
                    before[i].amount
                },
            },
    )
}

/// Sets each balance to the amount of the asset at its position.
pub fn update_pool_balances(balances: &mut Vec<Asset>, assets: &Vec<Asset>)
    requires
        assets.len() <= old(balances).len(),
    ensures
        final(balances)@ == replaced(old(balances)@, assets@),
{
    let mut i: usize = 0;
    while i < assets.len()
        invariant
            i <= assets.len() <= balances.len(),
            balances.len() == old(balances).len(),
            forall|j: int|
                0 <= j < i ==> (#[trigger] balances[j]) == replaced(old(balances)@, assets@)[j],
            forall|j: int| i <= j < balances.len() ==> (#[trigger] balances[j]) == old(balances)[j],
        decreases assets.len() - i,
    {
        balances[i].amount = assets[i].amount;
        i += 1;
    }
    proof {
        assert(balances@ =~= replaced(old(balances)@, assets@));
    }
}

} // verus!
