use astrpt::solver::calc_d;
use astrpt::solver::calc_y;
use astrpt::solver::df_dd;
use astrpt::solver::f;
use astrpt::signed::Signed;
use astrpt::oracle::half_float_pow;
use astrpt::curve::compute_swap;
use astrpt::error::ContractError;
use astrpt::fixed::Dec256;
use astrpt::math::assert_slippage_tolerance;
use astrpt::math::calc_provide_fee;
use astrpt::math::get_xcp;
use astrpt::ramp::AmpGamma;
use astrpt::ramp::Ramp;
use astrpt::state::PoolParams;
use astrpt::state::PoolState;
use astrpt::state::PriceState;

const UNIT: u128 = 1_000_000_000_000_000_000;

fn pair() -> AmpGamma {
    AmpGamma { amp: 40 * UNIT, gamma: 145_000_000_000_000 }
}

fn params() -> PoolParams {
    PoolParams {
        mid_fee: 2_600_000_000_000_000,
        out_fee: 4_500_000_000_000_000,
        fee_gamma: 230_000_000_000_000,
        repeg_profit_threshold: 2_000_000_000_000,
        min_price_scale_delta: 146_000_000_000_000,
        ma_half_time: 600,
    }
}

fn state(oracle_price: u128, price_scale: u128) -> PoolState {
    PoolState {
        ramp: Ramp { initial: pair(), future: pair(), initial_time: 0, future_time: 0 },
        price_state: PriceState {
            oracle_price: Dec256::raw(oracle_price),
            last_price: Dec256::raw(price_scale),
            price_scale: Dec256::raw(price_scale),
            last_price_update: 0,
            xcp_profit: Dec256::one(),
            xcp_profit_real: Dec256::one(),
        },
    }
}

fn parts(p: &PriceState) -> ([u8; 32], [u8; 32], [u8; 32], u64, [u8; 32], [u8; 32]) {
    (p.oracle_price.raw, p.last_price.raw, p.price_scale.raw, p.last_price_update, p.xcp_profit.raw, p.xcp_profit_real.raw)
}

fn whole(x: u128) -> Dec256 {
    Dec256::raw(x * UNIT)
}

#[test]
fn invariant_of_a_balanced_pool_is_the_sum() {
    let d = calc_d(&[whole(1000), whole(1000)], &pair()).unwrap();
    assert_eq!(d.to_u128(), Some(2000 * UNIT));
}

#[test]
fn invariant_lies_between_the_product_and_the_sum_rule() {
    let d = calc_d(&[whole(1_000_000), whole(2_000_000)], &pair()).unwrap().to_u128().unwrap();
    // twice the geometric mean, and the sum
    assert!(d > 2_828_427 * UNIT);
    assert!(d < 3_000_000 * UNIT);
}

#[test]
fn invariant_does_not_depend_on_the_order_of_the_balances() {
    let a = calc_d(&[whole(1_000_000), whole(2_000_000)], &pair()).unwrap();
    let b = calc_d(&[whole(2_000_000), whole(1_000_000)], &pair()).unwrap();
    assert_eq!(a.to_u128(), b.to_u128());
}

#[test]
fn invariant_of_an_empty_side_is_refused() {
    assert!(matches!(calc_d(&[Dec256::zero(), whole(5)], &pair()), Err(ContractError::ConvergenceFailure)));
    assert!(matches!(calc_d(&[whole(5), Dec256::zero()], &pair()), Err(ContractError::ConvergenceFailure)));
}

#[test]
fn value_of_the_invariant_in_share_units() {
    assert_eq!(get_xcp(whole(2000), Dec256::one()).unwrap().to_u128(), Some(1000 * UNIT));
    assert_eq!(get_xcp(whole(3000), Dec256::raw(UNIT / 2)).unwrap().to_u128(), Some(2_121_320_343_559_642_573_202));
    assert!(get_xcp(whole(3000), Dec256::zero()).is_none());
    assert!(get_xcp(Dec256 { raw: [255u8; 32] }, Dec256::raw(1)).is_none());
}

#[test]
fn fee_of_a_balanced_pool_is_the_middle_fee() {
    let fee = params().fee(&[whole(1000), whole(1000)]).unwrap();
    assert_eq!(fee.to_u128(), Some(2_600_000_000_000_000));
}

#[test]
fn fee_of_a_lopsided_pool_is_the_outer_fee() {
    let fee = params().fee(&[whole(1000), whole(99_000)]).unwrap();
    assert_eq!(fee.to_u128(), Some(4_500_000_000_000_000));
}

#[test]
fn fee_stays_between_the_two_fees() {
    let p = params();
    let mut x = 1u128;
    while x < 2_000 {
        let fee = p.fee(&[whole(1000), whole(x)]).unwrap().to_u128().unwrap();
        assert!(fee + 1 >= p.mid_fee);
        assert!(fee <= p.out_fee);
        x += 13;
    }
}

#[test]
fn greater_fee_gamma_moves_the_fee_toward_the_middle_fee() {
    let mut p = params();
    let xs = [whole(1000), whole(1100)];
    let mut last = p.out_fee + 1;
    let mut gamma = 1_000_000_000_000u128;
    while gamma <= UNIT {
        p.fee_gamma = gamma;
        let fee = p.fee(&xs).unwrap().to_u128().unwrap();
        assert!(fee <= last + 1);
        last = fee;
        gamma *= 3;
    }
    assert!(last < params().out_fee);
}

#[test]
fn fee_can_fall_one_atomic_short_of_the_middle_fee() {
    // equal fees and a weight of one half and one atomic: both parts round down
    let p = PoolParams { mid_fee: 50_000_000_000_001, out_fee: 50_000_000_000_001, fee_gamma: UNIT, ..params() };
    let mut lowest = u128::MAX;
    let mut x = 1_000u128;
    while x < 1_400 {
        let fee = p.fee(&[whole(1000), whole(x)]).unwrap().to_u128().unwrap();
        if fee < lowest {
            lowest = fee;
        }
        x += 1;
    }
    assert_eq!(lowest, 50_000_000_000_000);
    let fee = p.fee(&[whole(1000), whole(1001)]).unwrap().to_u128().unwrap();
    assert_eq!(fee, 50_000_000_000_000);
}

#[test]
fn fee_of_an_empty_pool_cannot_be_computed() {
    assert!(params().fee(&[Dec256::zero(), Dec256::zero()]).is_none());
}

#[test]
fn fee_on_a_deposit() {
    let p = params();
    let even = calc_provide_fee(&[whole(50_000), whole(50_000)], &[whole(100_000), whole(100_000)], &p);
    assert_eq!(even.unwrap().to_u128(), Some(0));
    let uneven = calc_provide_fee(&[whole(99_000), whole(1_000)], &[whole(100_000), whole(100_000)], &p);
    assert_eq!(uneven.unwrap().to_u128(), Some(1_274_000_000_000_000));
    let lopsided = calc_provide_fee(&[whole(99_000), whole(1_000)], &[whole(1_000), whole(99_000)], &p);
    assert_eq!(lopsided.unwrap().to_u128(), Some(2_205_000_000_000_000));
    assert!(calc_provide_fee(&[Dec256::zero(), Dec256::zero()], &[whole(1), whole(1)], &p).is_none());
}

#[test]
fn slippage_of_a_deposit() {
    let deposits = [whole(100), whole(100)];
    let s = assert_slippage_tolerance(&deposits, whole(99), Dec256::one(), Dec256::one(), None).unwrap();
    assert_eq!(s.to_u128(), Some(UNIT / 100));
    let s = assert_slippage_tolerance(&deposits, whole(101), Dec256::one(), Dec256::one(), None).unwrap();
    assert_eq!(s.to_u128(), Some(0));
    let s = assert_slippage_tolerance(&deposits, whole(60), Dec256::one(), Dec256::one(), Some(UNIT / 2)).unwrap();
    assert_eq!(s.to_u128(), Some(4 * UNIT / 10));
}

#[test]
fn slippage_beyond_the_bound_is_refused() {
    let deposits = [whole(100), whole(100)];
    let r = assert_slippage_tolerance(&deposits, whole(94), Dec256::one(), Dec256::one(), None);
    assert!(matches!(r, Err(ContractError::MaxSpreadAssertion)));
    let r = assert_slippage_tolerance(&deposits, whole(95), Dec256::one(), Dec256::one(), None);
    assert!(r.is_ok());
    let r = assert_slippage_tolerance(&deposits, whole(100), Dec256::one(), Dec256::one(), Some(UNIT / 2 + 1));
    assert!(matches!(r, Err(ContractError::AllowedSpreadAssertion)));
    let r = assert_slippage_tolerance(&deposits, whole(100), Dec256::one(), Dec256::zero(), None);
    assert!(matches!(r, Err(ContractError::Overflow)));
    let r = assert_slippage_tolerance(&[Dec256::zero(), Dec256::zero()], whole(1), Dec256::one(), Dec256::one(), None);
    assert!(matches!(r, Err(ContractError::Overflow)));
}

#[test]
fn swap_against_a_pool_of_one_and_two_million() {
    let xs = [whole(1_000_000), whole(2_000_000)];
    let offer = whole(1_000);
    let q = compute_swap(&xs, offer, 1, &state(UNIT / 2, UNIT), &params(), 10, Dec256::zero(), Dec256::zero()).unwrap();
    let dy = q.dy.to_u128().unwrap();
    let spread = q.spread_fee.to_u128().unwrap();
    assert!(dy > 0);
    assert!(dy < 2_000 * UNIT);
    assert!(spread > 0);
    assert!(spread < 1_000 * UNIT);
    assert_eq!(dy, 1_966_049_940_241_863_486_125);
    assert_eq!(q.total_fee.to_u128(), Some(8_879_389_458_809_202_318));
    assert_eq!(spread, 2_000 * UNIT - dy - 8_879_389_458_809_202_318);
    assert_eq!(q.maker_fee.to_u128(), Some(0));
    assert_eq!(q.share_fee.to_u128(), Some(0));
}

#[test]
fn swap_fee_is_shared_out_as_asked() {
    let xs = [whole(1_000_000), whole(2_000_000)];
    let q = compute_swap(&xs, whole(1_000), 1, &state(UNIT / 2, UNIT), &params(), 10, Dec256::raw(UNIT / 2), Dec256::raw(UNIT / 10)).unwrap();
    let fee = q.total_fee.to_u128().unwrap();
    assert_eq!(fee, 8_879_389_458_809_202_318);
    assert_eq!(q.share_fee.to_u128(), Some(fee / 10));
    assert_eq!(q.maker_fee.to_u128(), Some((fee - fee / 10) / 2));
}

#[test]
fn swap_that_cannot_be_quoted_is_refused() {
    let xs = [whole(1_000), whole(1_000)];
    let st = state(UNIT, UNIT);
    let r = compute_swap(&[Dec256::zero(), whole(1)], whole(1), 1, &st, &params(), 10, Dec256::zero(), Dec256::zero());
    assert!(matches!(r, Err(ContractError::ConvergenceFailure)));
    let r = compute_swap(&xs, whole(1), 2, &st, &params(), 10, Dec256::zero(), Dec256::zero());
    assert!(matches!(r, Err(ContractError::Overflow)));
    let r = compute_swap(&xs, whole(1), 1, &state(0, UNIT), &params(), 10, Dec256::zero(), Dec256::zero());
    assert!(matches!(r, Err(ContractError::Overflow)));
    let r = compute_swap(&xs, whole(1), 1, &state(UNIT, 0), &params(), 10, Dec256::zero(), Dec256::zero());
    assert!(matches!(r, Err(ContractError::ConvergenceFailure)));
    let r = compute_swap(&xs, whole(2_000), 1, &state(UNIT, UNIT), &params(), 10, whole(2), Dec256::zero());
    assert!(r.is_ok());
    let r = compute_swap(&xs, whole(1), 1, &state(UNIT, UNIT), &params(), 10, Dec256::zero(), whole(2));
    assert!(matches!(r, Err(ContractError::Overflow)));
    let r = compute_swap(&[whole(1), Dec256 { raw: [255u8; 32] }], whole(1), 1, &state(UNIT, 2 * UNIT), &params(), 10, Dec256::zero(), Dec256::zero());
    assert!(matches!(r, Err(ContractError::Overflow)));
}

#[test]
fn price_update_moves_the_oracle_toward_the_last_price() {
    let mut st = state(UNIT, UNIT);
    st.price_state.last_price = whole(2);
    let xs = [whole(1_000), whole(1_000)];
    let total_lp = whole(1_000);
    let next = st.next_price(&params(), 600, total_lp, &xs, Dec256::raw(3 * UNIT / 2)).unwrap();
    // one half-life: halfway between the oracle at one and the last price at two
    let oracle = next.oracle_price.to_u128().unwrap();
    assert!(oracle > 1_499_999_999 * UNIT / 1_000_000_000);
    assert!(oracle < 1_500_000_001 * UNIT / 1_000_000_000);
    assert_eq!(next.last_price.to_u128(), Some(3 * UNIT / 2));
    assert_eq!(next.last_price_update, 600);
    assert_eq!(next.xcp_profit_real.to_u128(), Some(UNIT));
    assert_eq!(next.price_scale.to_u128(), Some(UNIT));
}

#[test]
fn price_update_keeps_the_state_on_refusal() {
    let mut st = state(UNIT, UNIT);
    st.price_state.xcp_profit_real = whole(2);
    let before = st.price_state;
    let xs = [whole(1_000), whole(1_000)];
    let r = st.update_price(&params(), 600, whole(1_000), &xs, Dec256::one());
    assert!(matches!(r, Err(ContractError::ProfitDropped)));
    assert_eq!(parts(&st.price_state), parts(&before));
}

#[test]
fn price_update_that_cannot_be_asked_for_is_refused() {
    let st = state(UNIT, UNIT);
    let xs = [whole(1_000), whole(1_000)];
    let r = st.next_price(&params(), 600, whole(1_000), &[Dec256::zero(), whole(1)], Dec256::one());
    assert!(matches!(r, Err(ContractError::ConvergenceFailure)));
    let r = st.next_price(&params(), 600, Dec256::zero(), &xs, Dec256::one());
    assert!(matches!(r, Err(ContractError::Overflow)));
    let r = st.next_price(&params(), u64::MAX, whole(1_000), &xs, Dec256::one());
    assert!(r.is_ok());
    let r = st.next_price(&PoolParams { ma_half_time: 0, ..params() }, 600, whole(1_000), &xs, Dec256::one());
    assert!(matches!(r, Err(ContractError::Overflow)));
    let r = state(UNIT, 0).next_price(&params(), 600, whole(1_000), &xs, Dec256::one());
    assert!(matches!(r, Err(ContractError::Overflow)));
}

#[test]
fn drained_pool_has_no_invariant() {
    let tiny = Dec256::raw(1_000_000_000_000);
    assert!(matches!(calc_d(&[tiny, tiny], &pair()), Err(ContractError::ConvergenceFailure)));
    let huge = Dec256 { raw: [255u8; 32] };
    assert!(matches!(calc_d(&[huge, huge], &pair()), Err(ContractError::ConvergenceFailure)));
}

#[test]
fn balance_that_keeps_the_invariant() {
    let d = calc_d(&[whole(1_000), whole(1_000)], &pair()).unwrap();
    let y = calc_y(&[whole(1_000), whole(1_000)], d, &pair(), 1).unwrap();
    let gap = y.diff(whole(1_000)).to_u128().unwrap();
    assert!(gap <= 10_000_000_000_000);
    let y = calc_y(&[whole(1_100), whole(1_000)], d, &pair(), 1).unwrap().to_u128().unwrap();
    assert!(y < 1_000 * UNIT);
    assert!(y > 899 * UNIT);
    let back = calc_y(&[whole(1_100), Dec256::raw(y)], d, &pair(), 0).unwrap();
    assert!(back.diff(whole(1_100)).to_u128().unwrap() <= 20_000_000_000_000);
    assert!(matches!(calc_y(&[Dec256::zero(), whole(1_000)], d, &pair(), 1), Err(ContractError::ConvergenceFailure)));
}

#[test]
fn powers_of_one_half() {
    assert_eq!(half_float_pow(Dec256::zero()).unwrap().to_u128(), Some(UNIT));
    assert_eq!(half_float_pow(whole(1)).unwrap().to_u128(), Some(UNIT / 2));
    assert_eq!(half_float_pow(whole(3)).unwrap().to_u128(), Some(UNIT / 8));
    assert_eq!(half_float_pow(whole(64)).unwrap().to_u128(), Some(0));
    let root = half_float_pow(Dec256::raw(UNIT / 2)).unwrap().to_u128().unwrap();
    assert!(root > 707_106_781_000_000_000);
    assert!(root < 707_106_782_000_000_000);
    assert!(half_float_pow(Dec256 { raw: [255u8; 32] }).is_none());
}

#[test]
fn powers_by_squaring() {
    assert_eq!(whole(3).checked_pow(0).unwrap().to_u128(), Some(UNIT));
    assert_eq!(whole(3).checked_pow(1).unwrap().to_u128(), Some(3 * UNIT));
    assert_eq!(whole(3).checked_pow(5).unwrap().to_u128(), Some(243 * UNIT));
    assert_eq!(Dec256::raw(UNIT / 2).checked_pow(10).unwrap().to_u128(), Some(976_562_500_000_000));
    assert_eq!(Dec256::zero().checked_pow(0).unwrap().to_u128(), Some(UNIT));
    assert_eq!(Dec256::zero().checked_pow(7).unwrap().to_u128(), Some(0));
    assert!(whole(10).checked_pow(60).is_none());
    assert!(whole(10).checked_pow(59).is_some());
}

#[test]
fn invariant_meets_its_equation() {
    for (x0, x1) in [(1_000u128, 1_000u128), (1_000_000, 2_000_000), (3, 5), (70_000, 900)] {
        let d = calc_d(&[whole(x0), whole(x1)], &pair()).unwrap();
        let at = Some(Signed { val: d, neg: false });
        let s0 = Some(Signed { val: whole(x0), neg: false });
        let s1 = Some(Signed { val: whole(x1), neg: false });
        let a = Dec256::raw(pair().amp);
        let gamma = Dec256::raw(pair().gamma);
        let value = f(at, s0, s1, a, gamma).unwrap();
        let slope = df_dd(at, s0, s1, a, gamma).unwrap();
        let step = value.val.checked_div(slope.val).unwrap().to_u128().unwrap();
        // one more step would move the invariant by no more than the tolerance
        assert!(step <= 10_000_000_000_000);
    }
}

#[test]
fn rounding_can_raise_the_fee_by_one_atomic() {
    // two values of fee_gamma that lie 837 atomics apart
    let xs = [whole(1000), whole(1001)];
    let lower = PoolParams { fee_gamma: 1_665_871_073_924_998, ..params() };
    let higher = PoolParams { fee_gamma: 1_665_871_073_925_835, ..params() };
    assert_eq!(lower.fee(&xs).unwrap().to_u128(), Some(2_600_284_808_489_963));
    assert_eq!(higher.fee(&xs).unwrap().to_u128(), Some(2_600_284_808_489_964));
}
