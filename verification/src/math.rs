//! The closed formulas of a pool: the value of its invariant in share
//! units, the fee of a swap and of a deposit, and the slippage of a deposit.
//!
//! Every formula is a chain of checked fixed-point operations. Its spec
//! function gives the number of atomics that comes out, or `None` where a
//! step leaves the range or divides by zero.

use vstd::prelude::*;
use vstd::arithmetic::div_mod::lemma_div_by_multiple;
use vstd::arithmetic::div_mod::lemma_div_is_ordered;
use vstd::arithmetic::div_mod::lemma_fundamental_div_mod;
use vstd::arithmetic::power::pow;
use vstd::arithmetic::power::lemma_pow0;
use vstd::arithmetic::power::lemma_pow1;
use vstd::arithmetic::power::lemma_pow_adds;
use vstd::arithmetic::power::lemma_pow_positive;
use crate::error::ContractError;
use crate::error::ErrorKind;
use crate::fixed::apart;
use crate::fixed::apart_v;
use crate::fixed::less;
use crate::fixed::less_v;
use crate::fixed::limit;
use crate::fixed::minus;
use crate::fixed::minus_v;
use crate::fixed::over;
use crate::fixed::over_v;
use crate::fixed::plus;
use crate::fixed::plus_v;
use crate::fixed::pow10;
use crate::fixed::root;
use crate::fixed::root_v;
use crate::fixed::times;
use crate::fixed::times_v;
use crate::fixed::unit;
use crate::fixed::val;
use crate::fixed::Dec256;
use crate::ramp::UNIT;
use crate::state::PoolParams;

verus! {

/// Below this weight a pool counts as fully out of balance: 0.001.
pub const FEE_TOL: u128 = 1_000_000_000_000_000;

/// The slippage allowed where the caller names none: 0.05.
pub const DEFAULT_SLIPPAGE: u128 = 50_000_000_000_000_000;

/// The most slippage that a caller may allow: 0.5.
pub const MAX_ALLOWED_SLIPPAGE: u128 = 500_000_000_000_000_000;

/// The least amount that moves the price oracle: 0.00001.
pub const MIN_TRADE_SIZE: u128 = 10_000_000_000_000;

/// The value of the invariant `d` in share units: the geometric mean of the
/// two balances of a pool in balance at `price_scale`.
pub open spec fn xcp_value(d: nat, price_scale: nat) -> Option<nat> {
    let two = Some(2 * unit());
    root_v(times_v(over_v(Some(d), two), over_v(Some(d), times_v(two, Some(price_scale)))))
}

/// The value of the invariant `d` in share units.
pub fn get_xcp(d: Dec256, price_scale: Dec256) -> (r: Option<Dec256>)
    ensures
        val(r) == xcp_value(d@, price_scale@),
{
    let two = Some(Dec256::raw(2 * UNIT));
    root(times(over(Some(d), two), over(Some(d), times(two, Some(price_scale)))))
}

/// How much of the fee is the middle fee: the balance of the pool,
/// `4 * x0 * x1 / (x0 + x1)^2`, sharpened by `fee_gamma`, and zero where it
/// does not exceed 0.001.
pub open spec fn fee_weight(fee_gamma: nat, x0: nat, x1: nat) -> Option<nat> {
    let sum = plus_v(Some(x0), Some(x1));
    let balance = over_v(
        times_v(times_v(Some(x0), Some(x1)), Some(4 * unit())),
        times_v(sum, sum),
    );
    let gamma = Some(fee_gamma);
    match over_v(gamma, minus_v(plus_v(gamma, Some(unit())), balance)) {
        Some(k) => if k <= FEE_TOL {
            Some(0)
        } else {
            Some(k)
        },
        None => None,
    }
}

/// The fee rate between two weighted fees.
pub open spec fn blend(weight: Option<nat>, mid_fee: nat, out_fee: nat) -> Option<nat> {
    plus_v(times_v(weight, Some(mid_fee)), times_v(minus_v(Some(unit()), weight), Some(out_fee)))
}

/// The fee rate of a pool with the balances `x0` and `x1`.
pub open spec fn fee_value(params: PoolParams, x0: nat, x1: nat) -> Option<nat> {
    blend(fee_weight(params.fee_gamma as nat, x0, x1), params.mid_fee as nat, params.out_fee as nat)
}

impl PoolParams {
    /// The fee rate of a pool with the balances `xp`, both in units of the
    /// first asset: the middle fee for a pool in balance, the outer fee for
    /// one far out of balance.
    pub fn fee(&self, xp: &[Dec256; 2]) -> (r: Option<Dec256>)
        ensures
            val(r) == fee_value(*self, xp[0]@, xp[1]@),
    {
        let one = Some(Dec256::one());
        let sum = plus(Some(xp[0]), Some(xp[1]));
        let balance = over(
            times(times(Some(xp[0]), Some(xp[1])), Some(Dec256::raw(4 * UNIT))),
            times(sum, sum),
        );
        let gamma = Some(Dec256::raw(self.fee_gamma));
        let weight = match over(gamma, minus(plus(gamma, one), balance)) {
            Some(k) => if k.le(Dec256::raw(FEE_TOL)) {
                Some(Dec256::zero())
            } else {
                Some(k)
            },
            None => None,
        };
        plus(
            times(weight, Some(Dec256::raw(self.mid_fee))),
            times(minus(one, weight), Some(Dec256::raw(self.out_fee))),
        )
    }
}

/// The fee rate on a deposit of `d0` and `d1` into a pool that then holds
/// `x0` and `x1`, all in units of the first asset: the swap fee, taken on
/// the part of the deposit that is out of balance.
pub open spec fn provide_fee_value(params: PoolParams, d0: nat, d1: nat, x0: nat, x1: nat) -> Option<
    nat,
> {
    let sum = plus_v(Some(d0), Some(d1));
    let mean = over_v(sum, Some(2 * unit()));
    over_v(times_v(apart_v(Some(d0), mean), fee_value(params, x0, x1)), sum)
}

/// The fee rate on a deposit.
pub fn calc_provide_fee(deposits: &[Dec256; 2], xp: &[Dec256; 2], params: &PoolParams) -> (r:
    Option<Dec256>)
    ensures
        val(r) == provide_fee_value(*params, deposits[0]@, deposits[1]@, xp[0]@, xp[1]@),
{
    let sum = plus(Some(deposits[0]), Some(deposits[1]));
    let mean = over(sum, Some(Dec256::raw(2 * UNIT)));
    over(times(apart(Some(deposits[0]), mean), params.fee(xp)), sum)
}

/// How far the shares minted for a deposit fall short of the shares that
/// the deposit is worth at the price scale, as a part of the latter.
pub open spec fn slippage_value(
    d0: nat,
    d1: nat,
    share: nat,
    price_scale: nat,
    xcp_profit_real: nat,
) -> Option<nat> {
    let two = Some(2 * unit());
    let worth = plus_v(Some(d0), times_v(Some(d1), Some(price_scale)));
    let expected = over_v(
        root_v(over_v(times_v(over_v(worth, two), worth), times_v(two, Some(price_scale)))),
        Some(xcp_profit_real),
    );
    over_v(less_v(expected, Some(share)), expected)
}

/// The bound on slippage that a caller's choice stands for.
pub open spec fn tolerance_value(slippage_tolerance: Option<u128>) -> nat {
    match slippage_tolerance {
        Some(t) => t as nat,
        None => DEFAULT_SLIPPAGE as nat,
    }
}

/// The slippage of a deposit held against the caller's bound: refused where
/// the bound exceeds 0.5, where the slippage cannot be computed, and where
/// it exceeds the bound.
pub open spec fn slippage_check(
    d0: nat,
    d1: nat,
    share: nat,
    price_scale: nat,
    xcp_profit_real: nat,
    slippage_tolerance: Option<u128>,
) -> Result<nat, ErrorKind> {
    if tolerance_value(slippage_tolerance) > MAX_ALLOWED_SLIPPAGE {
        Err(ErrorKind::AllowedSpreadAssertion)
    } else {
        match slippage_value(d0, d1, share, price_scale, xcp_profit_real) {
            None => Err(ErrorKind::Overflow),
            Some(s) => if s > tolerance_value(slippage_tolerance) {
                Err(ErrorKind::MaxSpreadAssertion)
            } else {
                Ok(s)
            },
        }
    }
}

/// The view of a decimal result.
pub open spec fn dec_result(r: Result<Dec256, ContractError>) -> Result<nat, ErrorKind> {
    match r {
        Ok(v) => Ok(v@),
        Err(e) => Err(e@),
    }
}

/// Holds the slippage of a deposit against the caller's bound and returns
/// it.
pub fn assert_slippage_tolerance(
    deposits: &[Dec256; 2],
    actual_share: Dec256,
    price_scale: Dec256,
    xcp_profit_real: Dec256,
    slippage_tolerance: Option<u128>,
) -> (r: Result<Dec256, ContractError>)
    ensures
        dec_result(r) == slippage_check(
            deposits[0]@,
            deposits[1]@,
            actual_share@,
            price_scale@,
            xcp_profit_real@,
            slippage_tolerance,
        ),
{
    let tolerance = match slippage_tolerance {
        Some(t) => t,
        None => DEFAULT_SLIPPAGE,
    };
    if tolerance > MAX_ALLOWED_SLIPPAGE {
        return Err(ContractError::AllowedSpreadAssertion);
    }
    let two = Some(Dec256::raw(2 * UNIT));
    let worth = plus(Some(deposits[0]), times(Some(deposits[1]), Some(price_scale)));
    let expected = over(
        root(over(times(over(worth, two), worth), times(two, Some(price_scale)))),
        Some(xcp_profit_real),
    );
    match over(less(expected, Some(actual_share)), expected) {
        None => Err(ContractError::Overflow),
        Some(s) => if Dec256::raw(tolerance).lt(s) {
            Err(ContractError::MaxSpreadAssertion)
        } else {
            Ok(s)
        },
    }
}

/// A decimal as a whole number of units of `10^-precision`, rounded down,
/// where the number fits in 256 bits before the digits past the point are
/// cut and in 128 bits after.
pub open spec fn uint_value(atomics: nat, precision: nat) -> Option<nat> {
    if atomics * pow10(precision) < limit() && atomics * pow10(precision) / unit() <= u128::MAX {
        Some(atomics * pow10(precision) / unit())
    } else {
        None
    }
}

/// The decimal times `10^digits`.
fn scale_up(d: Dec256, digits: u8) -> (r: Option<Dec256>)
    ensures
        val(r) == if d@ * pow10(digits as nat) < limit() {
            Some(d@ * pow10(digits as nat))
        } else {
            None::<nat>
        },
{
    let ten = Some(Dec256::raw(10 * UNIT));
    let mut x = Some(d);
    let mut i: u8 = 0;
    proof {
        lemma_pow0(10);
        lemma_view_bound(d);
    }
    while i < digits
        invariant
            i <= digits,
            val(ten) == Some(10 * unit()),
            val(x) == if d@ * pow10(i as nat) < limit() {
                Some(d@ * pow10(i as nat))
            } else {
                None::<nat>
            },
        decreases digits - i,
    {
        proof {
            lemma_pow_adds(10, i as nat, 1);
            lemma_pow1(10);
            lemma_pow_positive(10, i as nat);
            lemma_pow_positive(10, (i + 1) as nat);
            let p = pow10(i as nat);
            assert(pow10((i + 1) as nat) == p * 10);
            assert(d@ * (p * 10) == (d@ * p) * 10) by (nonlinear_arith);
            assert((d@ * p) * (10 * unit()) == ((d@ * p) * 10) * unit()) by (nonlinear_arith);
            lemma_div_by_multiple(((d@ * p) * 10) as int, unit() as int);
            assert(d@ * p <= (d@ * p) * 10) by (nonlinear_arith)
                requires
                    d@ * p >= 0,
            ;
        }
        x = times(x, ten);
        i += 1;
    }
    x
}

/// Every decimal lies below the limit.
pub proof fn lemma_view_bound(d: Dec256)
    ensures
        d@ < limit(),
{
    lemma_be_value_bound(d.raw@);
    lemma_pow256();
}

/// A byte string of length `n` denotes a number below `256^n`.
pub proof fn lemma_be_value_bound(bytes: Seq<u8>)
    ensures
        crate::fixed::be_value(bytes) < pow(256, bytes.len()),
    decreases bytes.len(),
{
    if bytes.len() == 0 {
        lemma_pow0(256);
    } else {
        lemma_be_value_bound(bytes.drop_last());
        lemma_pow_adds(256, (bytes.len() - 1) as nat, 1);
        lemma_pow1(256);
        let rest = crate::fixed::be_value(bytes.drop_last());
        let top = pow(256, (bytes.len() - 1) as nat);
        assert(rest * 256 + bytes.last() < top * 256) by (nonlinear_arith)
            requires
                rest < top,
                bytes.last() < 256,
        ;
    }
}

/// `256^32` is the limit.
pub proof fn lemma_pow256()
    ensures
        pow(256, 32) == limit(),
{
    lemma_pow1(256);
    lemma_pow_adds(256, 1, 1);
    lemma_pow_adds(256, 2, 2);
    lemma_pow_adds(256, 4, 4);
    lemma_pow_adds(256, 8, 8);
    lemma_pow_adds(256, 16, 16);
    assert(pow(256, 2) == 0x1_0000) by (nonlinear_arith)
        requires
            pow(256, 2) == pow(256, 1) * pow(256, 1),
            pow(256, 1) == 256,
    ;
    assert(pow(256, 4) == 0x1_0000_0000) by (nonlinear_arith)
        requires
            pow(256, 4) == pow(256, 2) * pow(256, 2),
            pow(256, 2) == 0x1_0000,
    ;
    assert(pow(256, 8) == 0x1_0000_0000_0000_0000) by (nonlinear_arith)
        requires
            pow(256, 8) == pow(256, 4) * pow(256, 4),
            pow(256, 4) == 0x1_0000_0000,
    ;
    assert(pow(256, 16) == 0x1_0000_0000_0000_0000_0000_0000_0000_0000) by (nonlinear_arith)
        requires
            pow(256, 16) == pow(256, 8) * pow(256, 8),
            pow(256, 8) == 0x1_0000_0000_0000_0000,
    ;
    assert(pow(256, 32)
        == 0x1_0000_0000_0000_0000_0000_0000_0000_0000_0000_0000_0000_0000_0000_0000_0000_0000)
        by (nonlinear_arith)
        requires
            pow(256, 32) == pow(256, 16) * pow(256, 16),
            pow(256, 16) == 0x1_0000_0000_0000_0000_0000_0000_0000_0000,
    ;
}

impl Dec256 {
    /// The decimal as a whole number of units of `10^-precision`, rounded
    /// down.
    pub fn to_uint(self, precision: u8) -> (r: Option<u128>)
        ensures
            r matches Some(v) ==> uint_value(self@, precision as nat) == Some(v as nat),
            r is None ==> uint_value(self@, precision as nat) is None,
    {
        let cut = Some(Dec256::raw(UNIT * UNIT));
        proof {
            let a = self@ * pow10(precision as nat);
            assert(unit() * unit() == 1_000_000_000_000_000_000_000_000_000_000_000_000nat)
                by (nonlinear_arith);
            if a < limit() {
                vstd::arithmetic::div_mod::lemma_div_multiples_vanish_quotient(
                    unit() as int,
                    a as int,
                    unit() as int,
                );
                assert(a * unit() == unit() * a) by (nonlinear_arith);
                lemma_div_is_ordered(0, a as int, unit() as int);
                vstd::arithmetic::div_mod::lemma_div_nonincreasing(a as int, unit() as int);
            }
        }
        match over(scale_up(self, precision), cut) {
            Some(v) => v.to_u128(),
            None => None,
        }
    }
}

/// Rounding two quotients down loses less than one against rounding their
/// sum down.
pub proof fn lemma_div_sum(a: int, b: int, d: int)
    requires
        0 <= a,
        0 <= b,
        0 < d,
    ensures
        (a + b) / d - 1 <= a / d + b / d <= (a + b) / d,
{
    lemma_fundamental_div_mod(a, d);
    lemma_fundamental_div_mod(b, d);
    let qa = a / d;
    let qb = b / d;
    let ra = a % d;
    let rb = b % d;
    vstd::arithmetic::div_mod::lemma_mod_bound(a, d);
    vstd::arithmetic::div_mod::lemma_mod_bound(b, d);
    assert(a + b == d * (qa + qb) + (ra + rb)) by (nonlinear_arith)
        requires
            a == d * qa + ra,
            b == d * qb + rb,
    ;
    if ra + rb < d {
        vstd::arithmetic::div_mod::lemma_fundamental_div_mod_converse(a + b, d, qa + qb, ra + rb);
    } else {
        assert(a + b == d * (qa + qb + 1) + (ra + rb - d)) by (nonlinear_arith)
            requires
                a + b == d * (qa + qb) + (ra + rb),
        ;
        vstd::arithmetic::div_mod::lemma_fundamental_div_mod_converse(
            a + b,
            d,
            qa + qb + 1,
            ra + rb - d,
        );
    }
}

/// Of two fractions the one that is smaller by cross multiplication is
/// smaller rounded down too.
pub proof fn lemma_fraction_order(a: int, b: int, c: int, d: int)
    requires
        0 <= a,
        0 <= c,
        0 < b,
        0 < d,
        a * d <= c * b,
    ensures
        a / b <= c / d,
{
    let q = a / b;
    lemma_fundamental_div_mod(a, b);
    vstd::arithmetic::div_mod::lemma_mod_bound(a, b);
    lemma_div_is_ordered(0, a, b);
    assert(q * d <= c) by (nonlinear_arith)
        requires
            a == b * q + a % b,
            0 <= a % b,
            a * d <= c * b,
            0 < b,
            0 < d,
            0 <= q,
    ;
    lemma_div_is_ordered(q * d, c, d);
    lemma_div_by_multiple(q, d);
}

/// The balance of a pool never exceeds one: four times the product of the
/// balances is at most the square of their sum.
pub proof fn lemma_balance_at_most_one(x0: nat, x1: nat)
    ensures
        ({
            let sum = plus_v(Some(x0), Some(x1));
            over_v(times_v(times_v(Some(x0), Some(x1)), Some(4 * unit())), times_v(sum, sum))
        }) matches Some(b) ==> b <= unit(),
{
    let u = unit() as int;
    let sum = plus_v(Some(x0), Some(x1));
    let balance = over_v(
        times_v(times_v(Some(x0), Some(x1)), Some(4 * unit())),
        times_v(sum, sum),
    );
    if balance is Some {
        let y0: int = x0 as int;
        let y1: int = x1 as int;
        let prod: int = y0 * y1;
        let square: int = (y0 + y1) * (y0 + y1);
        let p: int = prod / u;
        let s2: int = square / u;
        let p4: int = (p * (4 * u)) / u;
        assert(0 <= prod) by (nonlinear_arith)
            requires
                prod == y0 * y1,
                0 <= y0,
                0 <= y1,
        ;
        assert(p * (4 * u) == (4 * p) * u) by (nonlinear_arith);
        lemma_div_is_ordered(0, prod, u);
        lemma_div_by_multiple(4 * p, u);
        assert(p4 == 4 * p);
        lemma_fundamental_div_mod(prod, u);
        vstd::arithmetic::div_mod::lemma_mod_bound(prod, u);
        let rest: int = prod % u;
        assert((4 * p) * u <= square) by (nonlinear_arith)
            requires
                prod == u * p + rest,
                0 <= rest,
                prod == y0 * y1,
                square == (y0 + y1) * (y0 + y1),
        ;
        lemma_div_is_ordered((4 * p) * u, square, u);
        assert(p4 <= s2);
        assert(p4 * u <= s2 * u) by (nonlinear_arith)
            requires
                p4 <= s2,
                0 < u,
        ;
        assert(times_v(sum, sum) == Some(s2 as nat));
        assert(s2 > 0);
        lemma_div_is_ordered(p4 * u, s2 * u, s2);
        lemma_div_by_multiple(u, s2);
        assert(s2 * u == u * s2) by (nonlinear_arith);
    }
}

/// The fee lies between the middle fee and the outer fee: it never exceeds
/// the outer fee, and it falls short of the middle fee by no more than the
/// one atomic that rounding its two parts down can cost.
pub proof fn lemma_fee_between(weight: Option<nat>, mid_fee: nat, out_fee: nat)
    requires
        mid_fee <= out_fee,
    ensures
        blend(weight, mid_fee, out_fee) matches Some(f) ==> mid_fee <= f + 1 && f <= out_fee,
{
    if blend(weight, mid_fee, out_fee) is Some {
        let u: int = unit() as int;
        let k: int = weight->0 as int;
        let mid: int = mid_fee as int;
        let out: int = out_fee as int;
        let a: int = k * mid;
        let b: int = (u - k) * out;
        assert(0 <= a && 0 <= b && mid * u <= a + b <= out * u) by (nonlinear_arith)
            requires
                a == k * mid,
                b == (u - k) * out,
                0 <= k <= u,
                0 <= mid <= out,
        ;
        lemma_div_sum(a, b, u);
        lemma_div_is_ordered(mid * u, a + b, u);
        lemma_div_is_ordered(a + b, out * u, u);
        lemma_div_by_multiple(mid, u);
        lemma_div_by_multiple(out, u);
    }
}

/// A greater `fee_gamma` gives the middle fee no less weight, for the same
/// balances.
pub proof fn lemma_weight_grows(g1: nat, g2: nat, x0: nat, x1: nat)
    requires
        g1 <= g2,
    ensures
        fee_weight(g1, x0, x1) matches Some(k1) ==> (fee_weight(g2, x0, x1) matches Some(k2)
            ==> k1 <= k2),
{
    let w1 = fee_weight(g1, x0, x1);
    let w2 = fee_weight(g2, x0, x1);
    if w1 is Some && w2 is Some {
        let u = unit() as int;
        let sum = plus_v(Some(x0), Some(x1));
        let balance = over_v(
            times_v(times_v(Some(x0), Some(x1)), Some(4 * unit())),
            times_v(sum, sum),
        );
        lemma_balance_at_most_one(x0, x1);
        let k0: int = balance->0 as int;
        let h1: int = g1 as int;
        let h2: int = g2 as int;
        let d1: int = h1 + u - k0;
        let d2: int = h2 + u - k0;
        assert((h1 * u) * d2 <= (h2 * u) * d1) by (nonlinear_arith)
            requires
                d1 == h1 + u - k0,
                d2 == h2 + u - k0,
                0 <= h1 <= h2,
                0 <= k0 <= u,
                0 < u,
        ;
        assert(0 <= h1 * u && 0 <= h2 * u) by (nonlinear_arith)
            requires
                0 <= h1,
                0 <= h2,
                0 < u,
        ;
        lemma_fraction_order(h1 * u, d1, h2 * u, d2);
    }
}

/// More weight on the middle fee does not raise the fee by more than the
/// one atomic that rounding can cost.
pub proof fn lemma_fee_falls(k1: nat, k2: nat, mid_fee: nat, out_fee: nat)
    requires
        k1 <= k2,
        mid_fee <= out_fee,
    ensures
        blend(Some(k1), mid_fee, out_fee) matches Some(f1) ==> (blend(Some(k2), mid_fee, out_fee)
            matches Some(f2) ==> f2 <= f1 + 1),
{
    if blend(Some(k1), mid_fee, out_fee) is Some && blend(Some(k2), mid_fee, out_fee) is Some {
        let u: int = unit() as int;
        let j1: int = k1 as int;
        let j2: int = k2 as int;
        let mid: int = mid_fee as int;
        let out: int = out_fee as int;
        let a1: int = j1 * mid;
        let b1: int = (u - j1) * out;
        let a2: int = j2 * mid;
        let b2: int = (u - j2) * out;
        assert(0 <= a1 && 0 <= b1 && 0 <= a2 && 0 <= b2 && a2 + b2 <= a1 + b1)
            by (nonlinear_arith)
            requires
                a1 == j1 * mid,
                b1 == (u - j1) * out,
                a2 == j2 * mid,
                b2 == (u - j2) * out,
                0 <= j1 <= j2 <= u,
                0 <= mid <= out,
        ;
        lemma_div_sum(a1, b1, u);
        lemma_div_sum(a2, b2, u);
        lemma_div_is_ordered(a2 + b2, a1 + b1, u);
    }
}

/// The fee of a pool lies between its middle and its outer fee, and a
/// greater `fee_gamma` moves it toward the middle fee: for the same
/// balances and fees, the fee under the greater `fee_gamma` is no higher
/// than under the smaller. Both hold up to the one atomic that rounding the
/// two parts of the fee down can cost.
pub proof fn lemma_fee_monotonic(lower: PoolParams, higher: PoolParams, x0: nat, x1: nat)
    requires
        lower.mid_fee <= lower.out_fee,
        higher.mid_fee == lower.mid_fee,
        higher.out_fee == lower.out_fee,
        lower.fee_gamma <= higher.fee_gamma,
    ensures
        fee_value(lower, x0, x1) matches Some(f) ==> lower.mid_fee <= f + 1 && f <= lower.out_fee,
        fee_value(higher, x0, x1) matches Some(f) ==> lower.mid_fee <= f + 1 && f
            <= lower.out_fee,
        fee_value(lower, x0, x1) matches Some(f1) ==> (fee_value(higher, x0, x1) matches Some(f2)
            ==> f2 <= f1 + 1),
{
    let w1 = fee_weight(lower.fee_gamma as nat, x0, x1);
    let w2 = fee_weight(higher.fee_gamma as nat, x0, x1);
    lemma_fee_between(w1, lower.mid_fee as nat, lower.out_fee as nat);
    lemma_fee_between(w2, lower.mid_fee as nat, lower.out_fee as nat);
    if fee_value(lower, x0, x1) is Some && fee_value(higher, x0, x1) is Some {
        lemma_weight_grows(lower.fee_gamma as nat, higher.fee_gamma as nat, x0, x1);
        lemma_fee_falls(w1->0, w2->0, lower.mid_fee as nat, lower.out_fee as nat);
    }
}

/// A deposit of equal worth in both assets pays no fee.
pub proof fn lemma_even_deposit_pays_no_fee(params: PoolParams, d: nat, x0: nat, x1: nat)
    requires
        0 < d,
        2 * d < limit(),
        fee_value(params, x0, x1) is Some,
    ensures
        provide_fee_value(params, d, d, x0, x1) == Some(0nat),
{
    let u = unit() as int;
    let sum = (2 * d) as int;
    // the mean of the two deposits is each of them
    vstd::arithmetic::div_mod::lemma_div_multiples_vanish_quotient(2, d * u, u);
    assert(2 * (d * u) == sum * u) by (nonlinear_arith)
        requires
            sum == 2 * d,
    ;
    lemma_div_by_multiple(d as int, u);
    assert(sum * u / (2 * u) == d);
    let fee = fee_value(params, x0, x1)->0 as int;
    assert(0 * fee / u == 0) by (nonlinear_arith)
        requires
            u > 0,
    ;
    assert(0 * u / sum == 0) by (nonlinear_arith)
        requires
            sum > 0,
    ;
}

} // verus!
