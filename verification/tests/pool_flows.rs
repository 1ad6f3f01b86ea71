use astrpt::asset::Asset;
use astrpt::asset::AssetInfo;
use astrpt::asset::Precisions;
use astrpt::curve::SwapResult;
use astrpt::error::ContractError;
use astrpt::fixed::Dec256;
use astrpt::liquidity::arrange_deposits;
use astrpt::liquidity::execute_provide_liquidity;
use astrpt::liquidity::execute_withdraw_liquidity;
use astrpt::liquidity::first_share;
use astrpt::liquidity::get_share_in_assets;
use astrpt::liquidity::next_share;
use astrpt::pool::check_cw20_in_pool;
use astrpt::pool::create_pool;
use astrpt::pool::execute_create_pair;
use astrpt::pool::query_compute_d;
use astrpt::pool::query_config;
use astrpt::pool::query_lp_price;
use astrpt::pool::query_pools;
use astrpt::pool::ConcentratedPoolParams;
use astrpt::pool::UpdatePoolParams;
use astrpt::router::assert_operations;
use astrpt::router::execute_swap_operations;
use astrpt::router::simulate_swap_operations;
use astrpt::router::PoolRegistry;
use astrpt::router::SwapOperation;
use astrpt::state::Pool;
use astrpt::state::PoolParams;
use astrpt::state::PriceState;
use astrpt::swap::assert_max_spread;
use astrpt::swap::before_swap_check;
use astrpt::swap::query_simulation;
use astrpt::swap::settle_swap;
use astrpt::swap::swap_internal;
use astrpt::error::PoolParam;

const UNIT: u128 = 1_000_000_000_000_000_000;

fn common() -> ConcentratedPoolParams {
    ConcentratedPoolParams {
        amp: 40 * UNIT,
        gamma: 145_000_000_000_000,
        mid_fee: 2_600_000_000_000_000,
        out_fee: 4_500_000_000_000_000,
        fee_gamma: 230_000_000_000_000,
        repeg_profit_threshold: 2_000_000_000_000,
        min_price_scale_delta: 146_000_000_000_000,
        price_scale: UNIT,
        ma_half_time: 600,
        track_asset_balances: None,
    }
}

fn halved() -> ConcentratedPoolParams {
    ConcentratedPoolParams { price_scale: UNIT / 2, ..common() }
}

fn token(name: &str) -> AssetInfo {
    AssetInfo::Token { contract_addr: name.to_string() }
}

fn native() -> AssetInfo {
    AssetInfo::NativeToken { denom: "aarch".to_string() }
}

fn asset(info: AssetInfo, amount: u128) -> Asset {
    Asset { info, amount }
}

fn parts(p: &PriceState) -> ([u8; 32], [u8; 32], [u8; 32], u64, [u8; 32], [u8; 32]) {
    (p.oracle_price.raw, p.last_price.raw, p.price_scale.raw, p.last_price_update, p.xcp_profit.raw, p.xcp_profit_real.raw)
}

fn whole(x: u128) -> Dec256 {
    Dec256::raw(x * UNIT)
}

fn precisions() -> Precisions {
    Precisions::new(vec![("aarch".to_string(), 18), ("TOX".to_string(), 6), ("TOY".to_string(), 6), ("TOZ".to_string(), 6)])
}

fn new_pool(a: AssetInfo, b: AssetInfo, params: ConcentratedPoolParams) -> Pool {
    create_pool(1_000, "manager".to_string(), Some(params), vec![a, b]).unwrap()
}

fn amounts(pool: &Pool) -> (u128, u128) {
    (pool.balances[0].amount, pool.balances[1].amount)
}

fn funded() -> (Pool, u128) {
    let mut pool = new_pool(native(), token("TOX"), common());
    let assets = vec![asset(native(), 1_000_000 * UNIT), asset(token("TOX"), 1_000_000_000_000)];
    let o = execute_provide_liquidity(&mut pool, &precisions(), 2_000, &assets, None, 0).unwrap();
    (pool, o.share + o.locked)
}

#[test]
fn first_deposit_of_nothing_and_a_hundred_is_refused() {
    let mut pool = new_pool(native(), token("TOX"), common());
    let assets = vec![asset(native(), 0), asset(token("TOX"), 100_000_000)];
    let r = execute_provide_liquidity(&mut pool, &precisions(), 2_000, &assets, None, 0);
    assert!(matches!(r, Err(ContractError::InvalidZeroAmount)));
    assert_eq!(amounts(&pool), (0, 0));
    let one_sided = vec![asset(token("TOX"), 100_000_000)];
    let r = execute_provide_liquidity(&mut pool, &precisions(), 2_000, &one_sided, None, 0);
    assert!(matches!(r, Err(ContractError::InvalidZeroAmount)));
    let other_side = vec![asset(native(), 100 * UNIT)];
    let r = execute_provide_liquidity(&mut pool, &precisions(), 2_000, &other_side, Some(0), 0);
    assert!(matches!(r, Err(ContractError::InvalidZeroAmount)));
}

#[test]
fn first_deposit_of_a_hundred_each_mints_beyond_the_lock() {
    let mut pool = new_pool(native(), token("TOX"), common());
    let assets = vec![asset(token("TOX"), 100_000_000), asset(native(), 100 * UNIT)];
    let o = execute_provide_liquidity(&mut pool, &precisions(), 2_000, &assets, None, 0).unwrap();
    assert!(o.share > 0);
    assert_eq!(o.share, 99_999_000);
    assert_eq!(o.locked, 1_000);
    assert_eq!(o.deposits, [100 * UNIT, 100_000_000]);
    assert_eq!(o.slippage.to_u128(), Some(10_000_000_000_000));
    assert_eq!(amounts(&pool), (100 * UNIT, 100_000_000));
    let price = pool.config.pool_state.price_state;
    assert_eq!(price.xcp_profit.to_u128(), Some(UNIT));
    assert_eq!(price.xcp_profit_real.to_u128(), Some(UNIT));
    assert_eq!(price.price_scale.to_u128(), Some(UNIT));
    assert_eq!(price.last_price_update, 1_000);
}

#[test]
fn first_deposit_must_exceed_the_lock() {
    let mut pool = new_pool(native(), token("TOX"), common());
    let assets = vec![asset(native(), UNIT / 1_000), asset(token("TOX"), 1_000)];
    let r = execute_provide_liquidity(&mut pool, &precisions(), 2_000, &assets, None, 0);
    assert!(matches!(r, Err(ContractError::MinimumLiquidityAmountError)));
    let assets = vec![asset(native(), UNIT / 2_000), asset(token("TOX"), 500)];
    let r = execute_provide_liquidity(&mut pool, &precisions(), 2_000, &assets, None, 0);
    assert!(matches!(r, Err(ContractError::MinimumLiquidityAmountError)));
    assert_eq!(amounts(&pool), (0, 0));
}

#[test]
fn shares_of_the_first_and_of_later_deposits() {
    assert_eq!(first_share(whole(200), Dec256::one()).unwrap().to_u128(), Some(99_999_000_000_000_000_000));
    assert!(matches!(first_share(Dec256::raw(2_000_000_000_000_000), Dec256::one()), Err(ContractError::MinimumLiquidityAmountError)));
    assert!(matches!(first_share(whole(200), Dec256::zero()), Err(ContractError::Overflow)));
    // the invariant grows by a tenth, and a hundredth of the new shares is the fee
    let share = next_share(whole(1_000), whole(2_200), whole(2_000), Some(Dec256::raw(UNIT / 100))).unwrap();
    assert_eq!(share.to_u128(), Some(99 * UNIT));
    let none = next_share(whole(1_000), whole(1_900), whole(2_000), Some(Dec256::zero())).unwrap();
    assert_eq!(none.to_u128(), Some(0));
    assert!(next_share(whole(1_000), whole(2_200), Dec256::zero(), Some(Dec256::zero())).is_none());
    assert!(next_share(whole(1_000), whole(2_200), whole(2_000), None).is_none());
    assert!(next_share(whole(1_000), whole(2_200), whole(2_000), Some(whole(2))).is_none());
}

#[test]
fn deposits_are_brought_into_the_order_of_the_pool() {
    let infos = vec![native(), token("TOX")];
    assert_eq!(arrange_deposits(&infos, &vec![asset(native(), 1), asset(token("TOX"), 2)]).unwrap(), [1, 2]);
    assert_eq!(arrange_deposits(&infos, &vec![asset(token("TOX"), 2), asset(native(), 1)]).unwrap(), [1, 2]);
    assert_eq!(arrange_deposits(&infos, &vec![asset(token("TOX"), 2)]).unwrap(), [0, 2]);
    assert_eq!(arrange_deposits(&infos, &vec![asset(native(), 1)]).unwrap(), [1, 0]);
    assert!(matches!(arrange_deposits(&infos, &vec![]), Err(ContractError::InvalidNumberOfAssets(2))));
    let three = vec![asset(native(), 1), asset(token("TOX"), 2), asset(token("TOY"), 3)];
    assert!(matches!(arrange_deposits(&infos, &three), Err(ContractError::InvalidNumberOfAssets(2))));
    let r = arrange_deposits(&infos, &vec![asset(token("TOY"), 2)]);
    assert!(matches!(r, Err(ContractError::InvalidAsset(s)) if s == "TOY"));
    let r = arrange_deposits(&infos, &vec![asset(native(), 1), asset(token("TOZ"), 2)]);
    assert!(matches!(r, Err(ContractError::InvalidAsset(s)) if s == "TOZ"));
    let r = arrange_deposits(&infos, &vec![asset(native(), 1), asset(native(), 2)]);
    assert!(matches!(r, Err(ContractError::DoublingAssets)));
}

#[test]
fn deposit_of_an_asset_without_precision_is_refused() {
    let mut pool = new_pool(native(), token("NEW"), common());
    let assets = vec![asset(native(), UNIT), asset(token("NEW"), 1_000_000)];
    let r = execute_provide_liquidity(&mut pool, &precisions(), 2_000, &assets, None, 0);
    assert!(matches!(r, Err(ContractError::InvalidAsset(s)) if s == "NEW"));
}

#[test]
fn later_deposit_in_balance_mints_in_proportion() {
    let (mut pool, total) = funded();
    assert_eq!(total, 1_000_000_000_000);
    let assets = vec![asset(native(), 1_000 * UNIT), asset(token("TOX"), 1_000_000_000)];
    let o = execute_provide_liquidity(&mut pool, &precisions(), 2_100, &assets, None, total).unwrap();
    assert_eq!(o.locked, 0);
    assert_eq!(o.share, 1_000_000_000);
    assert_eq!(o.slippage.to_u128(), Some(0));
    assert_eq!(amounts(&pool), (1_001_000 * UNIT, 1_001_000_000_000));
}

#[test]
fn later_deposit_out_of_balance_pays_a_fee() {
    let (mut pool, total) = funded();
    let one_sided = vec![asset(native(), 2_000 * UNIT)];
    let o = execute_provide_liquidity(&mut pool, &precisions(), 2_100, &one_sided, None, total).unwrap();
    assert!(o.share < 1_000_000_000);
    assert!(o.share > 990_000_000);
    assert!(o.slippage.to_u128().unwrap() > 0);
    assert_eq!(amounts(&pool), (1_002_000 * UNIT, 1_000_000_000_000));
    // the deposit moved the oracle's last price
    assert_eq!(pool.config.pool_state.price_state.last_price_update, 2_100);
}

#[test]
fn deposit_with_a_bound_on_slippage() {
    let (mut pool, total) = funded();
    let one_sided = vec![asset(native(), 900_000 * UNIT)];
    let before = amounts(&pool);
    let r = execute_provide_liquidity(&mut pool, &precisions(), 2_100, &one_sided, Some(1_000_000_000_000), total);
    assert!(matches!(r, Err(ContractError::MaxSpreadAssertion)));
    let r = execute_provide_liquidity(&mut pool, &precisions(), 2_100, &one_sided, Some(UNIT), total);
    assert!(matches!(r, Err(ContractError::AllowedSpreadAssertion)));
    assert_eq!(amounts(&pool), before);
}

#[test]
fn withdrawal_gives_back_in_proportion() {
    let (mut pool, total) = funded();
    let lp = "lp".to_string();
    pool.config.pair_info.liquidity_token = lp.clone();
    let r = execute_withdraw_liquidity(&mut pool, &precisions(), 2_100, &lp, total / 2, total).unwrap();
    assert_eq!(r, [499_999_999_999_000_000_000_000, 499_999_999_999]);
    assert_eq!(amounts(&pool), (1_000_000 * UNIT - r[0], 1_000_000_000_000 - r[1]));
    let profit = pool.config.pool_state.price_state.xcp_profit_real.to_u128().unwrap();
    assert!(profit >= UNIT);
    assert!(profit < UNIT + UNIT / 1_000_000);
}

#[test]
fn withdrawal_is_for_the_share_token_to_ask() {
    let (mut pool, total) = funded();
    pool.config.pair_info.liquidity_token = "lp".to_string();
    let r = execute_withdraw_liquidity(&mut pool, &precisions(), 2_100, &"user".to_string(), 1_000, total);
    assert!(matches!(r, Err(ContractError::Unauthorized)));
    assert_eq!(amounts(&pool), (1_000_000 * UNIT, 1_000_000_000_000));
}

#[test]
fn withdrawal_of_more_than_there_is_is_refused() {
    let (mut pool, total) = funded();
    let lp = String::new();
    // all shares: what is left of the pool is too little to have an invariant
    let r = execute_withdraw_liquidity(&mut pool, &precisions(), 2_100, &lp, total, total);
    assert!(matches!(r, Err(ContractError::ConvergenceFailure)));
    let r = execute_withdraw_liquidity(&mut pool, &precisions(), 2_100, &lp, total + 2, total);
    assert!(matches!(r, Err(ContractError::Overflow)));
    let r = execute_withdraw_liquidity(&mut pool, &precisions(), 2_100, &lp, total + 1, total);
    assert!(matches!(r, Err(ContractError::ConvergenceFailure)));
    assert_eq!(amounts(&pool), (1_000_000 * UNIT, 1_000_000_000_000));
    let r = execute_withdraw_liquidity(&mut pool, &precisions(), 2_100, &lp, total - 1_000, total).unwrap();
    assert_eq!(r, [999_999_998_999_000_000_000_000, 999_999_998_999]);
    assert_eq!(amounts(&pool), (1_001_000_000_000_000, 1_001));
}

#[test]
fn shares_stand_for_a_part_of_the_pool() {
    let pools = [whole(1_000), whole(500)];
    let r = get_share_in_assets(&pools, 251, 1_000);
    assert_eq!(r.0.unwrap().to_u128(), Some(250 * UNIT));
    assert_eq!(r.1.unwrap().to_u128(), Some(125 * UNIT));
    let r = get_share_in_assets(&pools, 0, 1_000);
    assert_eq!(r.0.unwrap().to_u128(), Some(0));
    let r = get_share_in_assets(&pools, 5, 0);
    assert_eq!(r.1.unwrap().to_u128(), Some(0));
}

#[test]
fn swap_needs_an_offer_and_a_pool() {
    let xs = [whole(1), whole(1)];
    assert!(before_swap_check(&xs, whole(1)).is_ok());
    assert!(matches!(before_swap_check(&xs, Dec256::zero()), Err(ContractError::InvalidZeroAmount)));
    assert!(matches!(before_swap_check(&[Dec256::zero(), whole(1)], whole(1)), Err(ContractError::EmptyPool)));
    assert!(matches!(before_swap_check(&[whole(1), Dec256::zero()], whole(1)), Err(ContractError::EmptyPool)));
    assert!(matches!(before_swap_check(&[Dec256::zero(), whole(1)], Dec256::zero()), Err(ContractError::InvalidZeroAmount)));
}

fn quote(dy: u128, spread: u128, maker: u128, share: u128, total: u128) -> SwapResult {
    SwapResult {
        dy: Dec256::raw(dy),
        spread_fee: Dec256::raw(spread),
        maker_fee: Dec256::raw(maker),
        share_fee: Dec256::raw(share),
        total_fee: Dec256::raw(total),
    }
}

#[test]
fn settled_swap_conserves_the_balances() {
    let q = quote(9 * UNIT + 1, UNIT / 2, UNIT / 4, UNIT / 8, UNIT);
    let s = settle_swap(whole(100), whole(200), whole(10), &q, 6).unwrap();
    assert_eq!(s.x_offer.to_u128(), Some(110 * UNIT));
    assert_eq!(s.x_ask.to_u128(), Some(200 * UNIT - (9 * UNIT + 1) - UNIT / 4 - UNIT / 8));
    assert_eq!(s.return_amount, 9_000_000);
    assert_eq!(s.spread_amount, 500_000);
    assert_eq!(s.commission_amount, 1_000_000);
}

#[test]
fn swap_cannot_pay_more_than_the_pool_holds() {
    let q = quote(200 * UNIT, 0, 1, 0, 0);
    assert!(matches!(settle_swap(whole(100), whole(200), whole(10), &q, 6), Err(ContractError::Overflow)));
    let q = quote(200 * UNIT, 0, 0, 0, 0);
    assert!(settle_swap(whole(100), whole(200), whole(10), &q, 6).is_ok());
    let q = quote(u128::MAX, 0, 0, 0, 0);
    let big = Dec256::raw(u128::MAX);
    assert!(matches!(settle_swap(whole(100), big, whole(10), &q, 19), Err(ContractError::ConversionOverflow)));
    assert!(matches!(settle_swap(Dec256 { raw: [255u8; 32] }, big, whole(10), &q, 6), Err(ContractError::Overflow)));
}

#[test]
fn price_of_a_swap_for_the_oracle() {
    let q = quote(4 * UNIT, 0, UNIT, 0, 0);
    assert_eq!(q.calc_last_price(whole(10), 0).unwrap().to_u128(), Some(2 * UNIT));
    assert_eq!(q.calc_last_price(whole(10), 1).unwrap().to_u128(), Some(UNIT / 2));
    assert!(q.calc_last_price(Dec256::zero(), 1).is_none());
    assert!(quote(0, 0, 0, 0, 0).calc_last_price(whole(10), 0).is_none());
}

#[test]
fn spread_is_held_against_the_bound() {
    // without a belief price the spread of the swap itself counts
    assert!(assert_max_spread(None, None, 1_000, 950, 50).is_ok());
    assert!(matches!(assert_max_spread(None, None, 1_000, 949, 51), Err(ContractError::MaxSpreadAssertion)));
    assert!(assert_max_spread(None, Some(UNIT / 2), 1_000, 500, 500).is_ok());
    assert!(matches!(assert_max_spread(None, Some(UNIT / 2 + 1), 1_000, 500, 500), Err(ContractError::AllowedSpreadAssertion)));
    assert!(matches!(assert_max_spread(None, Some(0), 1_000, 999, 1), Err(ContractError::MaxSpreadAssertion)));
    assert!(assert_max_spread(None, Some(0), 1_000, 999, 0).is_ok());
    assert!(matches!(assert_max_spread(None, None, 1_000, 0, 0), Err(ContractError::Overflow)));
    assert!(matches!(assert_max_spread(None, None, 1_000, u128::MAX, 1), Err(ContractError::Overflow)));
    // with a belief price of two the offer of a thousand should return five hundred
    assert!(assert_max_spread(Some(2 * UNIT), None, 1_000, 475, 0).is_ok());
    assert!(matches!(assert_max_spread(Some(2 * UNIT), None, 1_000, 474, 0), Err(ContractError::MaxSpreadAssertion)));
    assert!(assert_max_spread(Some(2 * UNIT), Some(0), 1_000, 500, 400).is_ok());
    assert!(assert_max_spread(Some(2 * UNIT), Some(0), 1_000, 600, 0).is_ok());
    assert!(matches!(assert_max_spread(Some(0), None, 1_000, 500, 0), Err(ContractError::InvalidBeliefPrice)));
    assert!(matches!(assert_max_spread(Some(1), None, u128::MAX, 500, 0), Err(ContractError::Overflow)));
    assert!(assert_max_spread(Some(u128::MAX), Some(0), u128::MAX, 0, 0).is_ok());
}

#[test]
fn swap_updates_both_balances() {
    let (mut pool, total) = funded();
    let offer = asset(native(), 1_000 * UNIT);
    let sim = query_simulation(&pool, &precisions(), 2_100, &offer).unwrap();
    assert_eq!((sim.return_amount, sim.spread_amount, sim.commission_amount), (997_379_295, 12_512, 2_608_192));
    let s = swap_internal(&mut pool, &precisions(), 2_100, &offer, Some(u128::MAX), None, total).unwrap();
    assert_eq!((s.return_amount, s.spread_amount, s.commission_amount), (997_379_295, 12_512, 2_608_192));
    assert_eq!(amounts(&pool), (1_001_000 * UNIT, 1_000_000_000_000 - 997_379_295));
    assert_eq!(s.x_offer.to_u128(), Some(1_001_000 * UNIT));
    let price = pool.config.pool_state.price_state;
    assert_eq!(price.last_price_update, 2_100);
    assert!(price.last_price.to_u128().unwrap() > UNIT);
    assert!(price.xcp_profit_real.to_u128().unwrap() > UNIT);
}

#[test]
fn small_swap_leaves_the_prices_alone() {
    let (mut pool, total) = funded();
    let before = parts(&pool.config.pool_state.price_state);
    let offer = asset(token("TOX"), 9);
    let s = swap_internal(&mut pool, &precisions(), 2_100, &offer, Some(u128::MAX), None, total).unwrap();
    assert_eq!(s.return_amount, 8_976_599_999_999);
    assert_eq!(amounts(&pool), (1_000_000 * UNIT - 8_976_599_999_999, 1_000_000_000_009));
    assert_eq!(parts(&pool.config.pool_state.price_state), before);
}

#[test]
fn swap_there_and_back_loses_the_fees() {
    let (mut pool, total) = funded();
    let there = swap_internal(&mut pool, &precisions(), 2_100, &asset(native(), 1_000 * UNIT), Some(u128::MAX), None, total).unwrap();
    let back = swap_internal(&mut pool, &precisions(), 2_100, &asset(token("TOX"), there.return_amount), Some(u128::MAX), None, total).unwrap();
    assert!(back.return_amount <= 1_000 * UNIT);
    let lost = 1_000 * UNIT - back.return_amount;
    // twice the middle fee of 0.26 percent, give or take a tenth of it
    assert!(lost > 1_000 * UNIT * 47 / 10_000);
    assert!(lost < 1_000 * UNIT * 57 / 10_000);
}

#[test]
fn refused_swap_leaves_the_pool_as_it_was() {
    let (mut pool, total) = funded();
    let before = amounts(&pool);
    let r = swap_internal(&mut pool, &precisions(), 2_100, &asset(native(), 0), Some(u128::MAX), None, total);
    assert!(matches!(r, Err(ContractError::InvalidZeroAmount)));
    let r = swap_internal(&mut pool, &precisions(), 2_100, &asset(token("TOY"), 5), Some(u128::MAX), None, total);
    assert!(matches!(r, Err(ContractError::InvalidAsset(s)) if s == "TOY"));
    let r = swap_internal(&mut pool, &precisions(), 2_100, &asset(token("NEW"), 5), Some(u128::MAX), None, total);
    assert!(matches!(r, Err(ContractError::InvalidAsset(s)) if s == "NEW"));
    let r = swap_internal(&mut pool, &precisions(), 2_100, &asset(native(), 1_000 * UNIT), Some(UNIT / 2), None, total);
    assert!(matches!(r, Err(ContractError::MaxSpreadAssertion)));
    let r = swap_internal(&mut pool, &precisions(), 2_100, &asset(native(), 1_000 * UNIT), None, Some(UNIT), total);
    assert!(matches!(r, Err(ContractError::AllowedSpreadAssertion)));
    let r = swap_internal(&mut pool, &precisions(), 2_100, &asset(native(), 1_000 * UNIT), Some(0), None, total);
    assert!(matches!(r, Err(ContractError::InvalidBeliefPrice)));
    let r = swap_internal(&mut pool, &precisions(), 2_100, &asset(native(), 1_000 * UNIT), None, None, 0);
    assert!(matches!(r, Err(ContractError::Overflow)));
    assert_eq!(amounts(&pool), before);
    let mut empty = new_pool(native(), token("TOX"), common());
    let r = swap_internal(&mut empty, &precisions(), 2_100, &asset(native(), 5), None, None, 0);
    assert!(matches!(r, Err(ContractError::EmptyPool)));
}

fn leg(offer: AssetInfo, ask: AssetInfo) -> SwapOperation {
    SwapOperation { offer_asset_info: offer, ask_asset_info: ask }
}

#[test]
fn legs_must_make_a_path() {
    assert!(assert_operations(&vec![leg(token("TOX"), token("TOY")), leg(token("TOY"), native())]).is_ok());
    assert!(matches!(assert_operations(&vec![]), Err(ContractError::MustProvideOperations)));
    let mut long = vec![];
    let mut i = 0;
    while i < 11 {
        long.push(if i % 2 == 0 { leg(token("TOX"), token("TOY")) } else { leg(token("TOY"), token("TOX")) });
        i += 1;
    }
    assert!(matches!(assert_operations(&long), Err(ContractError::SwapLimitExceeded)));
    long.pop();
    assert!(assert_operations(&long).is_ok());
    let r = assert_operations(&vec![leg(token("TOX"), token("TOX"))]);
    assert!(matches!(r, Err(ContractError::DoublingAssetsPath { offer_asset, ask_asset }) if offer_asset == "TOX" && ask_asset == "TOX"));
    let r = assert_operations(&vec![leg(token("TOX"), token("TOY")), leg(token("TOZ"), token("TOX"))]);
    assert!(matches!(r, Err(ContractError::InvalidPathOperations { prev_ask_asset, next_offer_asset, next_ask_asset })
        if prev_ask_asset == "TOY" && next_offer_asset == "TOZ" && next_ask_asset == "TOX"));
    let r = assert_operations(&vec![leg(token("TOX"), AssetInfo::NativeToken { denom: "x".to_string() })]);
    assert!(matches!(r, Err(ContractError::InvalidDenom(s)) if s == "x"));
    let r = assert_operations(&vec![leg(token("TOX"), token("TOY")), leg(AssetInfo::NativeToken { denom: "TOY".to_string() }, token("TOX"))]);
    assert!(matches!(r, Err(ContractError::InvalidPathOperations { .. })));
}

fn two_pools() -> (PoolRegistry, Precisions, u128) {
    let mut registry = PoolRegistry { pools: vec![] };
    let mut p = Precisions::new(vec![]);
    execute_create_pair(&mut registry, &mut p, 1_000, "manager".to_string(), Some(halved()), vec![token("TOX"), token("TOY")], &vec![6, 6]).unwrap();
    execute_create_pair(&mut registry, &mut p, 1_000, "manager".to_string(), Some(halved()), vec![token("TOY"), token("TOZ")], &vec![6, 6]).unwrap();
    let n = 10_000_00000u128;
    let a = execute_provide_liquidity(&mut registry.pools[0], &p, 1_000, &vec![asset(token("TOX"), n), asset(token("TOY"), n)], Some(UNIT / 2), 0).unwrap();
    let b = execute_provide_liquidity(&mut registry.pools[1], &p, 1_000, &vec![asset(token("TOY"), n), asset(token("TOZ"), n)], Some(UNIT / 2), 0).unwrap();
    assert_eq!((a.share, a.locked), (1_002_851_579, 1_000));
    assert_eq!((b.share, b.locked), (1_002_851_579, 1_000));
    assert_eq!(a.slippage.to_u128(), Some(54_502_463_602_731_330));
    (registry, p, a.share + a.locked)
}

#[test]
fn pool_manager_works() {
    let (mut registry, p, total) = two_pools();
    assert_eq!(registry.pools[0].key, format!("{}{}", "TOX", "TOY"));
    assert_eq!(amounts(&registry.pools[0]), (1_000_000_000, 1_000_000_000));
    let d = query_compute_d(&registry.pools[0], &p, 1_100).unwrap();
    assert_eq!(d.to_u128(), Some(1_418_247_718_809_465_377_804));
    let lp = query_lp_price(&registry.pools[0], &p, 1_100, total).unwrap();
    assert_eq!(lp.to_u128(), Some(1_000_000_000_371_465_182));
    assert_eq!(query_lp_price(&registry.pools[0], &p, 1_100, 0).unwrap().to_u128(), Some(0));
    let r = execute_withdraw_liquidity(&mut registry.pools[0], &p, 1_300, &String::new(), 1_000_000, total).unwrap();
    assert_eq!(r, [997_154, 997_154]);
    assert_eq!(amounts(&registry.pools[0]), (1_000_000_000 - 997_154, 1_000_000_000 - 997_154));
}

#[test]
fn path_through_two_pools() {
    let (mut registry, p, total) = two_pools();
    let ops = vec![leg(token("TOX"), token("TOY")), leg(token("TOY"), token("TOZ"))];
    assert_eq!(simulate_swap_operations(&registry, &p, 1_100, 10_000, &ops).unwrap(), 10_142);
    let shares = vec![total, total];
    assert_eq!(execute_swap_operations(&mut registry, &p, 1_100, &ops, 10_000, None, &shares).unwrap(), 10_142);
    assert_eq!(simulate_swap_operations(&registry, &p, 1_100, 10_000_000, &ops).unwrap(), 9_941_004);
    assert_eq!(execute_swap_operations(&mut registry, &p, 1_200, &ops, 10_000_000, None, &shares).unwrap(), 9_941_004);
    assert_eq!(amounts(&registry.pools[0]), (1_010_010_000, 990_019_618));
    assert_eq!(amounts(&registry.pools[1]), (1_009_980_382, 990_048_854));
    let price = registry.pools[0].config.pool_state.price_state;
    assert_eq!(price.oracle_price.to_u128(), Some(553_778_867_899_092_030));
    assert_eq!(price.last_price.to_u128(), Some(1_002_977_679_017_995_731));
    assert_eq!(price.price_scale.to_u128(), Some(UNIT / 2));
    assert_eq!(price.xcp_profit.to_u128(), Some(1_000_022_635_866_577_794));
    assert_eq!(price.xcp_profit_real.to_u128(), Some(1_000_022_635_866_577_795));
    let r = execute_withdraw_liquidity(&mut registry.pools[0], &p, 1_300, &String::new(), 1_000_000, total).unwrap();
    assert_eq!(r, [1_007_136, 987_202]);
    assert_eq!(amounts(&registry.pools[0]), (1_009_002_864, 989_032_416));
    assert_eq!(registry.pools[0].config.pool_state.price_state.xcp_profit_real.to_u128(), Some(1_000_022_637_172_219_727));
}

#[test]
fn path_that_comes_back_sees_its_own_first_leg() {
    let (mut registry, p, total) = two_pools();
    let ops = vec![leg(token("TOX"), token("TOY")), leg(token("TOY"), token("TOX"))];
    let out = execute_swap_operations(&mut registry, &p, 1_100, &ops, 10_000_000, None, &vec![total, total]).unwrap();
    assert!(out < 10_000_000);
    assert!(out > 9_900_000);
    let (x, y) = amounts(&registry.pools[0]);
    assert_eq!(x, 1_000_000_000 + 10_000_000 - out);
    assert_eq!(y, 1_000_000_000);
    // simulated against the pools as they stand, the way back is priced as if the way there had not been made
    let sim = simulate_swap_operations(&registry, &p, 1_100, 10_000_000, &ops).unwrap();
    assert!(sim != out);
}

#[test]
fn path_that_fails_leaves_every_pool_as_it_was() {
    let (mut registry, p, total) = two_pools();
    let ops = vec![leg(token("TOX"), token("TOY")), leg(token("TOY"), native())];
    let r = execute_swap_operations(&mut registry, &p, 1_100, &ops, 10_000, None, &vec![total, total]);
    assert!(matches!(r, Err(ContractError::PoolNotFound)));
    assert_eq!(amounts(&registry.pools[0]), (1_000_000_000, 1_000_000_000));
    assert_eq!(registry.pools[0].config.pool_state.price_state.last_price_update, 1_000);
    let ops = vec![leg(token("TOX"), token("TOY")), leg(token("TOY"), token("TOZ"))];
    let r = execute_swap_operations(&mut registry, &p, 1_100, &ops, 10_000, Some(UNIT), &vec![total, total]);
    assert!(matches!(r, Err(ContractError::AllowedSpreadAssertion)));
    let r = execute_swap_operations(&mut registry, &p, 1_100, &ops, 10_000, None, &vec![total, 0]);
    assert!(matches!(r, Err(ContractError::Overflow)));
    assert_eq!(amounts(&registry.pools[0]), (1_000_000_000, 1_000_000_000));
    assert_eq!(amounts(&registry.pools[1]), (1_000_000_000, 1_000_000_000));
    let r = execute_swap_operations(&mut registry, &p, 1_100, &vec![], 10_000, None, &vec![]);
    assert!(matches!(r, Err(ContractError::MustProvideOperations)));
    let r = simulate_swap_operations(&registry, &p, 1_100, 10_000, &vec![leg(token("TOX"), native())]);
    assert!(matches!(r, Err(ContractError::PoolNotFound)));
    assert_eq!(simulate_swap_operations(&registry, &p, 1_100, 77, &vec![]).unwrap(), 77);
}

#[test]
fn pool_is_made_as_asked() {
    let pool = new_pool(token("TOY"), token("TOX"), ConcentratedPoolParams { track_asset_balances: Some(true), ..halved() });
    assert_eq!(pool.key, "TOXTOY");
    assert!(pool.config.pair_info.asset_infos[0].equal(&token("TOY")));
    assert!(pool.balances[1].info.equal(&token("TOX")));
    assert_eq!(amounts(&pool), (0, 0));
    assert_eq!(pool.config.pair_info.contract_addr, "manager");
    assert_eq!(pool.config.pair_info.liquidity_token, "");
    assert_eq!(pool.config.factory_addr, "PINA_COLADA");
    assert!(pool.config.track_asset_balances);
    assert!(pool.config.owner.is_none());
    assert!(pool.config.fee_share.is_none());
    let state = pool.config.pool_state;
    assert_eq!(state.ramp.initial, state.ramp.future);
    assert_eq!((state.ramp.future.amp, state.ramp.future.gamma), (40 * UNIT, 145_000_000_000_000));
    assert_eq!((state.ramp.initial_time, state.ramp.future_time), (1_000, 1_000));
    assert_eq!(state.price_state.oracle_price.to_u128(), Some(UNIT / 2));
    assert_eq!(state.price_state.last_price.to_u128(), Some(UNIT / 2));
    assert_eq!(state.price_state.price_scale.to_u128(), Some(UNIT / 2));
    assert_eq!(state.price_state.last_price_update, 1_000);
    assert_eq!(state.price_state.xcp_profit.to_u128(), Some(0));
    assert_eq!(state.price_state.xcp_profit_real.to_u128(), Some(0));
    assert_eq!(pool.config.pool_params.ma_half_time, 600);
    assert_eq!(pool.config.pool_params.out_fee, 4_500_000_000_000_000);
    let c = query_config(&pool, 1_000).unwrap();
    assert_eq!((c.amp, c.gamma, c.price_scale, c.track_asset_balances), (40 * UNIT, 145_000_000_000_000, UNIT / 2, true));
    assert_eq!((c.mid_fee, c.out_fee, c.fee_gamma, c.ma_half_time), (2_600_000_000_000_000, 4_500_000_000_000_000, 230_000_000_000_000, 600));
    for at in [0u64, 500, 999, 1_001, u64::MAX] {
        let c = query_config(&pool, at).unwrap();
        assert_eq!((c.amp, c.gamma), (40 * UNIT, 145_000_000_000_000));
    }
}

fn refused(params: Option<ConcentratedPoolParams>, infos: Vec<AssetInfo>) -> ContractError {
    match create_pool(1_000, "manager".to_string(), params, infos) {
        Ok(_) => panic!("a pool was made"),
        Err(e) => e,
    }
}

#[test]
fn pool_is_not_made_of_what_is_out_of_order() {
    let two = || vec![token("TOX"), token("TOY")];
    assert!(matches!(refused(Some(common()), vec![token("TOX")]), ContractError::AssetCount));
    assert!(matches!(refused(Some(common()), vec![token("TOX"), token("TOY"), token("TOZ")]), ContractError::AssetCount));
    assert!(matches!(refused(Some(common()), vec![token("TOX"), token("TOX")]), ContractError::DoublingAssets));
    let bad = vec![token("TOX"), AssetInfo::NativeToken { denom: "9".to_string() }];
    assert!(matches!(refused(Some(common()), bad), ContractError::InvalidDenom(s) if s == "9"));
    assert!(matches!(refused(None, two()), ContractError::InitParamsNotFound));
    assert!(matches!(refused(Some(ConcentratedPoolParams { price_scale: 0, ..common() }), two()), ContractError::ZeroPriceScale));
    assert!(matches!(refused(Some(ConcentratedPoolParams { mid_fee: 49_999_999_999_999, ..common() }), two()), ContractError::IncorrectPoolParam(PoolParam::MidFee)));
    assert!(matches!(refused(Some(ConcentratedPoolParams { out_fee: 10_000_000_000_000_001, ..common() }), two()), ContractError::IncorrectPoolParam(PoolParam::OutFee)));
    assert!(matches!(refused(Some(ConcentratedPoolParams { out_fee: 2_600_000_000_000_000, ..common() }), two()), ContractError::FeeOrder));
    assert!(matches!(refused(Some(ConcentratedPoolParams { fee_gamma: UNIT + 1, ..common() }), two()), ContractError::IncorrectPoolParam(PoolParam::FeeGamma)));
    assert!(matches!(refused(Some(ConcentratedPoolParams { repeg_profit_threshold: 10_000_000_000_000_001, ..common() }), two()), ContractError::IncorrectPoolParam(PoolParam::RepegProfitThreshold)));
    assert!(matches!(refused(Some(ConcentratedPoolParams { min_price_scale_delta: UNIT + 1, ..common() }), two()), ContractError::IncorrectPoolParam(PoolParam::MinPriceScaleDelta)));
    assert!(matches!(refused(Some(ConcentratedPoolParams { ma_half_time: 0, ..common() }), two()), ContractError::IncorrectPoolParam(PoolParam::MaHalfTime)));
    assert!(matches!(refused(Some(ConcentratedPoolParams { ma_half_time: 604_801, ..common() }), two()), ContractError::IncorrectPoolParam(PoolParam::MaHalfTime)));
    assert!(matches!(refused(Some(ConcentratedPoolParams { amp: 0, ..common() }), two()), ContractError::IncorrectPoolParam(PoolParam::Amp)));
    assert!(matches!(refused(Some(ConcentratedPoolParams { gamma: 0, ..common() }), two()), ContractError::IncorrectPoolParam(PoolParam::Gamma)));
}

#[test]
fn parameters_are_updated_all_or_none() {
    let mut p = PoolParams::empty();
    let none = UpdatePoolParams { mid_fee: None, out_fee: None, fee_gamma: None, repeg_profit_threshold: None, min_price_scale_delta: None, ma_half_time: None };
    p.update_params(none).unwrap();
    assert_eq!(p, PoolParams::empty());
    p.update_params(UpdatePoolParams { mid_fee: Some(50_000_000_000_000), out_fee: Some(50_000_000_000_001), ..none }).unwrap();
    assert_eq!((p.mid_fee, p.out_fee), (50_000_000_000_000, 50_000_000_000_001));
    let r = p.update_params(UpdatePoolParams { mid_fee: Some(60_000_000_000_000), ma_half_time: Some(0), ..none });
    assert!(matches!(r, Err(ContractError::IncorrectPoolParam(PoolParam::MaHalfTime))));
    assert_eq!(p.mid_fee, 50_000_000_000_000);
    let r = p.update_params(UpdatePoolParams { mid_fee: Some(60_000_000_000_000), out_fee: Some(60_000_000_000_000), ..none });
    assert!(matches!(r, Err(ContractError::FeeOrder)));
    p.update_params(UpdatePoolParams { fee_gamma: Some(UNIT), ma_half_time: Some(604_800), ..none }).unwrap();
    assert_eq!((p.fee_gamma, p.ma_half_time, p.mid_fee), (UNIT, 604_800, 50_000_000_000_000));
}

#[test]
fn pools_are_kept_under_their_keys() {
    let mut registry = PoolRegistry { pools: vec![] };
    let mut p = Precisions::new(vec![]);
    let k = execute_create_pair(&mut registry, &mut p, 1_000, "manager".to_string(), Some(common()), vec![native(), token("TOX")], &vec![0, 8]).unwrap();
    assert_eq!(k, "TOXaarch");
    assert_eq!(p.get_precision(&native()).unwrap(), 18);
    assert_eq!(p.get_precision(&token("TOX")).unwrap(), 8);
    assert_eq!(registry.find(&k), Some(0));
    assert_eq!(registry.find(&"aarchTOX".to_string()), None);
    let r = execute_create_pair(&mut registry, &mut p, 1_000, "manager".to_string(), None, vec![token("TOY"), token("TOX")], &vec![6, 6]);
    assert!(matches!(r, Err(ContractError::InitParamsNotFound)));
    assert_eq!(registry.pools.len(), 1);
    assert_eq!(p.0.len(), 2);
    // a pool that is kept is not made anew, in whichever order its assets are named
    execute_provide_liquidity(&mut registry.pools[0], &p, 1_200, &vec![asset(native(), 100 * UNIT), asset(token("TOX"), 10_000_000_000)], None, 0).unwrap();
    let r = execute_create_pair(&mut registry, &mut p, 1_500, "manager".to_string(), Some(common()), vec![token("TOX"), native()], &vec![6, 0]);
    assert!(matches!(r, Err(ContractError::PoolExists)));
    let r = execute_create_pair(&mut registry, &mut p, 1_500, "other".to_string(), Some(halved()), vec![native(), token("TOX")], &vec![0, 6]);
    assert!(matches!(r, Err(ContractError::PoolExists)));
    assert_eq!(registry.pools.len(), 1);
    assert_eq!(amounts(&registry.pools[0]), (100 * UNIT, 10_000_000_000));
    assert_eq!(registry.pools[0].config.pool_state.ramp.future_time, 1_000);
    assert_eq!(registry.pools[0].config.pair_info.contract_addr, "manager");
    assert!(registry.pools[0].config.pair_info.asset_infos[0].equal(&native()));
    assert_eq!(p.get_precision(&token("TOX")).unwrap(), 8);
    assert_eq!(p.0.len(), 2);
    // what stands against making a pool at all is found first
    let r = execute_create_pair(&mut registry, &mut p, 1_500, "manager".to_string(), None, vec![native(), token("TOX")], &vec![0, 6]);
    assert!(matches!(r, Err(ContractError::InitParamsNotFound)));
    execute_create_pair(&mut registry, &mut p, 1_500, "manager".to_string(), Some(common()), vec![token("TOY"), token("TOX")], &vec![6, 6]).unwrap();
    assert_eq!(registry.pools.len(), 2);
    assert_eq!(registry.pools[1].key, "TOXTOY");
    assert_eq!(amounts(&registry.pools[0]), (100 * UNIT, 10_000_000_000));
    registry.register_liquidity_token(&k, "lp".to_string()).unwrap();
    assert_eq!(registry.pools[0].config.pair_info.liquidity_token, "lp");
    let r = registry.register_liquidity_token(&"none".to_string(), "lp".to_string());
    assert!(matches!(r, Err(ContractError::PoolNotFound)));
    let copy = registry.duplicate();
    assert_eq!(copy.pools[0].key, "TOXaarch");
    assert_eq!(copy.pools[0].config.pair_info.liquidity_token, "lp");
}

#[test]
fn pool_answers_what_it_is_asked() {
    let (pool, total) = funded();
    let xs = query_pools(&pool, &precisions()).unwrap();
    assert_eq!(xs[0].amount.to_u128(), Some(1_000_000 * UNIT));
    assert_eq!(xs[1].amount.to_u128(), Some(1_000_000 * UNIT));
    assert!(xs[1].info.equal(&token("TOX")));
    assert_eq!(query_compute_d(&pool, &precisions(), 2_000).unwrap().to_u128(), Some(2_000_000 * UNIT));
    assert_eq!(query_lp_price(&pool, &precisions(), 2_000, total).unwrap().to_u128(), Some(UNIT));
    let empty = new_pool(native(), token("TOX"), common());
    assert!(matches!(query_compute_d(&empty, &precisions(), 2_000), Err(ContractError::InvalidZeroAmount)));
    assert!(matches!(query_lp_price(&empty, &precisions(), 2_000, 5), Err(ContractError::ConvergenceFailure)));
    assert!(matches!(query_pools(&pool, &Precisions::new(vec![])), Err(ContractError::InvalidAsset(s)) if s == "aarch"));
    let mut wide = new_pool(native(), token("TOX"), common());
    wide.config.pool_state.price_state.price_scale = Dec256 { raw: [255u8; 32] };
    assert!(matches!(query_config(&wide, 2_000), Err(ContractError::ConversionOverflow)));
    assert!(check_cw20_in_pool(&pool.config, &"TOX".to_string()).is_ok());
    assert!(matches!(check_cw20_in_pool(&pool.config, &"aarch".to_string()), Err(ContractError::Unauthorized)));
    assert!(matches!(check_cw20_in_pool(&pool.config, &"TOY".to_string()), Err(ContractError::Unauthorized)));
}

fn three_pools() -> (PoolRegistry, Precisions) {
    let mut registry = PoolRegistry { pools: vec![] };
    let mut p = Precisions::new(vec![]);
    execute_create_pair(&mut registry, &mut p, 1_000, "manager".to_string(), Some(halved()), vec![token("TOX"), token("TOY")], &vec![6, 6]).unwrap();
    execute_create_pair(&mut registry, &mut p, 1_000, "manager".to_string(), Some(halved()), vec![token("TOY"), token("TOZ")], &vec![6, 6]).unwrap();
    execute_create_pair(&mut registry, &mut p, 1_000, "manager".to_string(), Some(halved()), vec![native(), token("TOX")], &vec![0, 6]).unwrap();
    assert_eq!(registry.pools[2].key, "TOXaarch");
    (registry, p)
}

#[test]
fn test_native_to_token_swap() {
    let (mut registry, p) = three_pools();
    let n = 10_000_00000u128;
    let arch = n * 1000000000000000;
    let assets1 = vec![asset(token("TOX"), n), asset(native(), arch)];
    // a million of the one asset against a thousand of the other, at a price scale of
    // one half: so lopsided a first deposit is held back by the bound on slippage
    let r = execute_provide_liquidity(&mut registry.pools[2], &p, 1_000, &assets1, Some(UNIT / 2), 0);
    assert!(matches!(r, Err(ContractError::MaxSpreadAssertion)));
    assert_eq!(amounts(&registry.pools[2]), (0, 0));
    let ops = vec![leg(native(), token("TOX"))];
    let r = execute_swap_operations(&mut registry, &p, 1_000, &ops, 1000000000 * n, None, &vec![0]);
    assert!(matches!(r, Err(ContractError::EmptyPool)));
    assert_eq!(amounts(&registry.pools[2]), (0, 0));
    // the same native coins with tokens of the same worth are taken, and the swap goes through
    let even = vec![asset(token("TOX"), 2_000_000_000_000), asset(native(), arch)];
    let o = execute_provide_liquidity(&mut registry.pools[2], &p, 1_000, &even, Some(UNIT / 2), 0).unwrap();
    assert_eq!(o.deposits, [arch, 2_000_000_000_000]);
    let total = o.share + o.locked;
    let out = execute_swap_operations(&mut registry, &p, 1_000, &ops, 1000000000 * n, None, &vec![total]).unwrap();
    assert_eq!(out, 1_994_799);
    assert_eq!(amounts(&registry.pools[2]), (arch + 1000000000 * n, 2_000_000_000_000 - out));
}

#[test]
fn test_token_to_native_swap() {
    let (mut registry, p) = three_pools();
    let n = 10_000_00000u128;
    let arch = n * 1000000000000000;
    let m = 100_000_000_000_000u128;
    let assets1 = vec![asset(native(), arch), asset(token("TOX"), m)];
    // a million of the one asset against a hundred million of the other, at a price scale
    // of one half: this first deposit too is held back by the bound on slippage
    let r = execute_provide_liquidity(&mut registry.pools[2], &p, 1_000, &assets1, Some(UNIT / 2), 0);
    assert!(matches!(r, Err(ContractError::MaxSpreadAssertion)));
    assert_eq!(amounts(&registry.pools[2]), (0, 0));
    let ops = vec![leg(token("TOX"), native())];
    let r = execute_swap_operations(&mut registry, &p, 1_000, &ops, 1000000000, None, &vec![0]);
    assert!(matches!(r, Err(ContractError::EmptyPool)));
    // the same tokens with native coins of the same worth are taken, and the swap goes through
    let even = vec![asset(native(), 50 * arch), asset(token("TOX"), m)];
    let o = execute_provide_liquidity(&mut registry.pools[2], &p, 1_000, &even, Some(UNIT / 2), 0).unwrap();
    let total = o.share + o.locked;
    let out = execute_swap_operations(&mut registry, &p, 1_000, &ops, 1000000000, None, &vec![total]).unwrap();
    assert_eq!(out, 498_699_938_018_980_328_259);
    assert_eq!(amounts(&registry.pools[2]), (50 * arch - out, m + 1000000000));
}
