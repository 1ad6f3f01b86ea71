//! The pools, and swaps along a path through them.
//!
//! A path is a list of legs, each a swap of one asset for another against
//! the pool of the two. What one leg returns the next one offers, and each
//! leg sees the pools as the legs before it left them. A path that fails in
//! any leg leaves every pool as it was.

use vstd::prelude::*;
use crate::asset::Asset;
use crate::asset::AssetInfo;
use crate::asset::Precisions;
use crate::error::ContractError;
use crate::error::ErrorKind;
use crate::key::key_name;
use crate::key::key_of;
use crate::state::Pool;
use crate::state::PoolView;
use crate::swap::query_simulation;
use crate::swap::simulation_value;
use crate::swap::swap_flow;
use crate::swap::swap_internal;
use crate::swap::swapped;

verus! {

/// The most legs that a path may have.
pub const MAX_SWAP_OPERATIONS: usize = 10;

/// The belief price handed to every leg of a path: the greatest decimal in
/// 128 bits, at which no return is expected and no spread is found.
pub const NO_BELIEF: u128 = 0xffff_ffff_ffff_ffff_ffff_ffff_ffff_ffff;

/// A leg of a path: a swap of the one asset for the other.
#[derive(Debug)]
pub struct SwapOperation {
    /// The asset that is offered.
    pub offer_asset_info: AssetInfo,
    /// The asset that is asked for.
    pub ask_asset_info: AssetInfo,
}

/// What is wrong with the leg at `i`: an asset that is not named as its
/// kind asks, a swap of an asset for itself, or an offer of another asset
/// than the leg before returned.
pub open spec fn leg_error(ops: Seq<SwapOperation>, i: int) -> Option<ErrorKind> {
    let offer = ops[i].offer_asset_info;
    let ask = ops[i].ask_asset_info;
    if !offer.well_named() {
        Some(ErrorKind::InvalidDenom(offer.name()))
    } else if !ask.well_named() {
        Some(ErrorKind::InvalidDenom(ask.name()))
    } else if offer.same(&ask) {
        Some(ErrorKind::DoublingAssetsPath { offer_asset: offer.name(), ask_asset: ask.name() })
    } else if i > 0 && !ops[i - 1].ask_asset_info.same(&offer) {
        Some(
            ErrorKind::InvalidPathOperations {
                prev_ask_asset: ops[i - 1].ask_asset_info.name(),
                next_offer_asset: offer.name(),
                next_ask_asset: ask.name(),
            },
        )
    } else {
        None
    }
}

/// What is wrong with the first of the first `upto` legs that is wrong.
pub open spec fn path_error(ops: Seq<SwapOperation>, upto: int) -> Option<ErrorKind>
    decreases upto,
{
    if upto <= 0 {
        None
    } else {
        match path_error(ops, upto - 1) {
            Some(e) => Some(e),
            None => leg_error(ops, upto - 1),
        }
    }
}

/// Whether the legs make a path: there is one, there are no more than ten,
/// and none of them is wrong.
pub open spec fn operations_check(ops: Seq<SwapOperation>) -> Result<(), ErrorKind> {
    if ops.len() == 0 {
        Err(ErrorKind::MustProvideOperations)
    } else if ops.len() > MAX_SWAP_OPERATIONS {
        Err(ErrorKind::SwapLimitExceeded)
    } else {
        match path_error(ops, ops.len() as int) {
            Some(e) => Err(e),
            None => Ok(()),
        }
    }
}

/// The first leg that is wrong stays the first.
pub proof fn lemma_path_error_stays(ops: Seq<SwapOperation>, i: int, n: int)
    requires
        0 <= i < n,
        path_error(ops, i + 1) is Some,
    ensures
        path_error(ops, n) == path_error(ops, i + 1),
    decreases n - i,
{
    if n > i + 1 {
        lemma_path_error_stays(ops, i, n - 1);
    }
}

/// Checks that the legs make a path.
pub fn assert_operations(operations: &Vec<SwapOperation>) -> (r: Result<(), ContractError>)
    ensures
        crate::swap::unit_result(r) == operations_check(operations@),
{
    if operations.len() == 0 {
        return Err(ContractError::MustProvideOperations);
    }
    if operations.len() > MAX_SWAP_OPERATIONS {
        return Err(ContractError::SwapLimitExceeded);
    }
    let mut i: usize = 0;
    while i < operations.len()
        invariant
            i <= operations.len(),
            0 < operations.len() <= MAX_SWAP_OPERATIONS,
            path_error(operations@, i as int) is None,
        decreases operations.len() - i,
    {
        let offer = &operations[i].offer_asset_info;
        let ask = &operations[i].ask_asset_info;
        proof {
            if leg_error(operations@, i as int) is Some {
                lemma_path_error_stays(operations@, i as int, operations@.len() as int);
            }
        }
        match offer.check() {
            Ok(_) => {},
            Err(e) => {
                return Err(e);
            },
        }
        match ask.check() {
            Ok(_) => {},
            Err(e) => {
                return Err(e);
            },
        }
        if offer.equal(ask) {
            return Err(
                ContractError::DoublingAssetsPath {
                    offer_asset: offer.to_string(),
                    ask_asset: ask.to_string(),
                },
            );
        }
        if i > 0 && !operations[i - 1].ask_asset_info.equal(offer) {
            return Err(
                ContractError::InvalidPathOperations {
                    prev_ask_asset: operations[i - 1].ask_asset_info.to_string(),
                    next_offer_asset: offer.to_string(),
                    next_ask_asset: ask.to_string(),
                },
            );
        }
        i += 1;
    }
    Ok(())
}

/// The pools, each under its key.
#[derive(Debug)]
pub struct PoolRegistry {
    pub pools: Vec<Pool>,
}

impl View for PoolRegistry {
    type V = Seq<PoolView>;

    open spec fn view(&self) -> Seq<PoolView> {
        Seq::new(self.pools@.len(), |i: int| self.pools@[i]@)
    }
}

/// Whether every pool is well-formed.
pub open spec fn pools_wf(pools: Seq<PoolView>) -> bool {
    forall|i: int| 0 <= i < pools.len() ==> (#[trigger] pools[i]).wf()
}

/// Where the pool with the given key stands: the first position from `from`
/// on that holds a pool with this key.
pub open spec fn pool_index(pools: Seq<PoolView>, key: Seq<char>, from: int) -> Option<int>
    decreases pools.len() - from,
{
    if from < 0 || from >= pools.len() {
        None
    } else if pools[from].key@ == key {
        Some(from)
    } else {
        pool_index(pools, key, from + 1)
    }
}

/// The position found for a key lies within the pools, from `from` on, and
/// holds a pool with the key.
pub proof fn lemma_pool_index(pools: Seq<PoolView>, key: Seq<char>, from: int)
    ensures
        pool_index(pools, key, from) matches Some(k) ==> 0 <= from <= k < pools.len()
            && pools[k].key@ == key,
    decreases pools.len() - from,
{
    if 0 <= from < pools.len() && pools[from].key@ != key {
        lemma_pool_index(pools, key, from + 1);
    }
}

impl PoolRegistry {
    /// Whether every pool is well-formed.
    pub open spec fn wf(&self) -> bool {
        pools_wf(self@)
    }

    /// Where the pool with the given key stands.
    pub fn find(&self, key: &String) -> (r: Option<usize>)
        ensures
            match pool_index(self@, key@, 0) {
                Some(k) => r == Some(k as usize) && 0 <= k < self.pools.len(),
                None => r is None,
            },
    {
        let mut i: usize = 0;
        while i < self.pools.len()
            invariant
                i <= self.pools.len(),
                pool_index(self@, key@, 0) == pool_index(self@, key@, i as int),
            decreases self.pools.len() - i,
        {
            if self.pools[i].key == *key {
                return Some(i);
            }
            i += 1;
        }
        None
    }

    /// A copy of the pools.
    pub fn duplicate(&self) -> (r: PoolRegistry)
        ensures
            r@ == self@,
    {
        let mut pools: Vec<Pool> = Vec::new();
        let mut i: usize = 0;
        while i < self.pools.len()
            invariant
                i <= self.pools.len(),
                pools@.len() == i,
                forall|j: int| 0 <= j < i ==> (#[trigger] pools@[j])@ == self.pools@[j]@,
            decreases self.pools.len() - i,
        {
            pools.push(self.pools[i].duplicate());
            i += 1;
        }
        let copy = PoolRegistry { pools };
        proof {
            assert(copy@ =~= self@);
        }
        copy
    }
}

/// The key of the pool that a leg goes through.
pub open spec fn leg_key(op: SwapOperation) -> Seq<char> {
    key_name(op.offer_asset_info.name(), op.ask_asset_info.name())
}

/// What the legs from `i` on return for `amount` of the asset that leg `i`
/// offers, and the pools as they leave them. Each leg swaps against the
/// pool under its key, with the shares out handed in for it, no belief
/// price, and the caller's bound on the spread.
pub open spec fn legs_flow(
    pools: Seq<PoolView>,
    precisions: Precisions,
    now: u64,
    ops: Seq<SwapOperation>,
    total_shares: Seq<u128>,
    max_spread: Option<u128>,
    i: int,
    amount: u128,
) -> Result<(u128, Seq<PoolView>), ErrorKind>
    decreases ops.len() - i,
{
    if i < 0 || i >= ops.len() {
        Ok((amount, pools))
    } else {
        match pool_index(pools, leg_key(ops[i]), 0) {
            None => Err(ErrorKind::PoolNotFound),
            Some(k) => match swap_flow(
                pools[k],
                precisions,
                now,
                Asset { info: ops[i].offer_asset_info, amount },
                Some(NO_BELIEF),
                max_spread,
                total_shares[i],
            ) {
                Err(e) => Err(e),
                Ok(v) => legs_flow(
                    pools.update(k, swapped(pools[k], v)),
                    precisions,
                    now,
                    ops,
                    total_shares,
                    max_spread,
                    i + 1,
                    v.settled.return_amount as u128,
                ),
            },
        }
    }
}

/// What a path returns for `amount` of its first asset, and the pools as it
/// leaves them.
pub open spec fn route_flow(
    pools: Seq<PoolView>,
    precisions: Precisions,
    now: u64,
    ops: Seq<SwapOperation>,
    total_shares: Seq<u128>,
    max_spread: Option<u128>,
    amount: u128,
) -> Result<(u128, Seq<PoolView>), ErrorKind> {
    match operations_check(ops) {
        Err(e) => Err(e),
        Ok(_) => legs_flow(pools, precisions, now, ops, total_shares, max_spread, 0, amount),
    }
}

/// Swaps `input_amount` along the path of `operations` at the time `now`
/// and returns what the last leg returns. `total_shares` holds, for each
/// leg, the shares out of the leg's pool. A refusal in any leg leaves every
/// pool as it was.
pub fn execute_swap_operations(
    registry: &mut PoolRegistry,
    precisions: &Precisions,
    now: u64,
    operations: &Vec<SwapOperation>,
    input_amount: u128,
    max_spread: Option<u128>,
    total_shares: &Vec<u128>,
) -> (r: Result<u128, ContractError>)
    requires
        old(registry).wf(),
        total_shares.len() == operations.len(),
    ensures
        final(registry).wf(),
        match route_flow(
            old(registry)@,
            *precisions,
            now,
            operations@,
            total_shares@,
            max_spread,
            input_amount,
        ) {
            Ok(done) => r == Ok::<u128, ContractError>(done.0) && final(registry)@ == done.1,
            Err(e) => r matches Err(f) && f@ == e && *final(registry) == *old(registry),
        },
{
    match assert_operations(operations) {
        Ok(_) => {},
        Err(e) => {
            return Err(e);
        },
    }
    let mut work = registry.duplicate();
    let mut amount = input_amount;
    let mut i: usize = 0;
    while i < operations.len()
        invariant
            i <= operations.len(),
            total_shares.len() == operations.len(),
            operations_check(operations@) is Ok,
            work.wf(),
            registry.wf(),
            *registry == *old(registry),
            legs_flow(
                old(registry)@,
                *precisions,
                now,
                operations@,
                total_shares@,
                max_spread,
                0,
                input_amount,
            ) == legs_flow(
                work@,
                *precisions,
                now,
                operations@,
                total_shares@,
                max_spread,
                i as int,
                amount,
            ),
        decreases operations.len() - i,
    {
        let op = &operations[i];
        let key = key_of(&op.offer_asset_info, &op.ask_asset_info);
        let k = match work.find(&key) {
            Some(k) => k,
            None => {
                return Err(ContractError::PoolNotFound);
            },
        };
        let offer = Asset { info: op.offer_asset_info.duplicate(), amount };
        let ghost before = work@;
        let mut pool = work.pools.remove(k);
        assert(pool@ == before[k as int]);
        let settled = match swap_internal(
            &mut pool,
            precisions,
            now,
            &offer,
            Some(NO_BELIEF),
            max_spread,
            total_shares[i],
        ) {
            Ok(s) => s,
            Err(e) => {
                return Err(e);
            },
        };
        work.pools.insert(k, pool);
        proof {
            assert(work@ =~= before.update(k as int, pool@));
        }
        amount = settled.return_amount;
        i += 1;
    }
    *registry = work;
    Ok(amount)
}

/// What the legs from `i` on would return for `amount`, each leg simulated
/// against its pool as it stands.
pub open spec fn legs_simulation(
    pools: Seq<PoolView>,
    precisions: Precisions,
    now: u64,
    ops: Seq<SwapOperation>,
    i: int,
    amount: u128,
) -> Result<u128, ErrorKind>
    decreases ops.len() - i,
{
    if i < 0 || i >= ops.len() {
        Ok(amount)
    } else {
        match pool_index(pools, leg_key(ops[i]), 0) {
            None => Err(ErrorKind::PoolNotFound),
            Some(k) => match simulation_value(
                pools[k],
                precisions,
                now,
                Asset { info: ops[i].offer_asset_info, amount },
            ) {
                Err(e) => Err(e),
                Ok(s) => legs_simulation(pools, precisions, now, ops, i + 1, s.return_amount),
            },
        }
    }
}

/// The view of an amount or its refusal.
pub open spec fn amount_result(r: Result<u128, ContractError>) -> Result<u128, ErrorKind> {
    match r {
        Ok(a) => Ok(a),
        Err(e) => Err(e@),
    }
}

/// What a swap of `offer_amount` along the path of `operations` would
/// return. The pools are left as they are, and each leg is simulated against
/// its pool as it stands.
pub fn simulate_swap_operations(
    registry: &PoolRegistry,
    precisions: &Precisions,
    now: u64,
    offer_amount: u128,
    operations: &Vec<SwapOperation>,
) -> (r: Result<u128, ContractError>)
    requires
        registry.wf(),
    ensures
        amount_result(r) == legs_simulation(
            registry@,
            *precisions,
            now,
            operations@,
            0,
            offer_amount,
        ),
{
    let mut amount = offer_amount;
    let mut i: usize = 0;
    while i < operations.len()
        invariant
            i <= operations.len(),
            registry.wf(),
            legs_simulation(registry@, *precisions, now, operations@, 0, offer_amount)
                == legs_simulation(registry@, *precisions, now, operations@, i as int, amount),
        decreases operations.len() - i,
    {
        let op = &operations[i];
        let key = key_of(&op.offer_asset_info, &op.ask_asset_info);
        let k = match registry.find(&key) {
            Some(k) => k,
            None => {
                return Err(ContractError::PoolNotFound);
            },
        };
        let offer = Asset { info: op.offer_asset_info.duplicate(), amount };
        assert(registry.pools[k as int]@ == registry@[k as int]);
        let s = match query_simulation(&registry.pools[k], precisions, now, &offer) {
            Ok(s) => s,
            Err(e) => {
                return Err(e);
            },
        };
        amount = s.return_amount;
        i += 1;
    }
    Ok(amount)
}

} // verus!
