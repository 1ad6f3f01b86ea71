//! The invariant of a pool and its solver.
//!
//! The invariant `d` of two balances `x0` and `x1` under the amplification
//! `a` and the curvature `gamma` is a root of
//!
//! `f(d) = k * d * (x0 + x1) + x0 * x1 - k * d^2 - d^2 / 4`, where
//! `k = a * gamma^2 * k0 / (gamma + 1 - k0)^2` and `k0 = 4 * x0 * x1 / d^2`.
//!
//! The solver looks for it by Newton's method, from twice the geometric mean
//! of the balances, and stops when two steps in a row are no more than
//! 0.00001 apart or when 64 steps are made. The same method finds the one
//! balance that gives a known invariant with a known other balance. All
//! arithmetic is in checked fixed point: a step that cannot be computed ends
//! the search without a result.

use vstd::prelude::*;
use crate::error::ContractError;
use crate::fixed::plus;
use crate::fixed::plus_v;
use crate::fixed::root;
use crate::fixed::root_v;
use crate::fixed::times;
use crate::fixed::times_v;
use crate::fixed::unit;
use crate::fixed::val;
use crate::fixed::Dec256;
use crate::ramp::AmpGamma;
use crate::ramp::UNIT;
use crate::signed::pos;
use crate::signed::pos_v;
use crate::signed::sadd;
use crate::signed::sadd_v;
use crate::signed::scube;
use crate::signed::scube_v;
use crate::signed::sdiff;
use crate::signed::sdiff_v;
use crate::signed::sdiv;
use crate::signed::sdiv_v;
use crate::signed::smul;
use crate::signed::smul_v;
use crate::signed::sneg;
use crate::signed::sneg_v;
use crate::signed::ssquare;
use crate::signed::ssquare_v;
use crate::signed::ssub;
use crate::signed::ssub_v;
use crate::signed::sval;
use crate::signed::unsigned;
use crate::signed::unsigned_v;
use crate::signed::Signed;
use crate::signed::SignedView;

verus! {

/// How close two steps must be for the search to end: 0.00001.
pub const TOL: u128 = 10_000_000_000_000;

/// The most steps that a search makes.
pub const MAX_ITER: u8 = 64;

/// A factor that keeps small quotients from vanishing, as atomics.
pub const PADDING: u128 = 1_000_000_000_000_000_000_000_000_000_000_000_000;

/// The number two as a signed decimal.
pub open spec fn two_v() -> Option<SignedView> {
    Some(SignedView { val: 2 * unit(), neg: false })
}

/// The number four as a signed decimal.
pub open spec fn four_v() -> Option<SignedView> {
    Some(SignedView { val: 4 * unit(), neg: false })
}

/// The padding as a signed decimal.
pub open spec fn padding_v() -> Option<SignedView> {
    Some(SignedView { val: PADDING as nat, neg: false })
}

/// `a * gamma^2`.
pub open spec fn a_gamma2_v(a: nat, gamma: nat) -> Option<SignedView> {
    pos_v(times_v(Some(a), times_v(Some(gamma), Some(gamma))))
}

/// `gamma + 1`.
pub open spec fn gamma1_v(gamma: nat) -> Option<SignedView> {
    pos_v(plus_v(Some(gamma), Some(unit())))
}

/// The function whose root the invariant is, at `d`.
#[verifier::opaque]
pub open spec fn f_v(d: Option<SignedView>, x0: Option<SignedView>, x1: Option<SignedView>, a: nat, gamma: nat) -> Option<
    SignedView,
> {
    let prod = smul_v(x0, x1);
    let d2 = ssquare_v(d);
    let prod4 = smul_v(prod, four_v());
    let k = sdiv_v(
        smul_v(prod4, a_gamma2_v(a, gamma)),
        smul_v(ssquare_v(ssub_v(gamma1_v(gamma), sdiv_v(prod4, d2))), d2),
    );
    ssub_v(
        ssub_v(sadd_v(smul_v(smul_v(d, sadd_v(x0, x1)), k), prod), smul_v(k, d2)),
        sdiv_v(d2, four_v()),
    )
}

/// The derivative of `f` by the invariant, at `d`.
#[verifier::opaque]
pub open spec fn df_dd_v(d: Option<SignedView>, x0: Option<SignedView>, x1: Option<SignedView>, a: nat, gamma: nat) -> Option<
    SignedView,
> {
    let ag2 = a_gamma2_v(a, gamma);
    let g1 = gamma1_v(gamma);
    let d2 = ssquare_v(d);
    let prod4 = smul_v(smul_v(x0, x1), four_v());
    let sum = sadd_v(x0, x1);
    let k0 = sdiv_v(prod4, d2);
    let k0_prime = smul_v(sneg_v(two_v()), prod4);
    let g1k0 = ssub_v(g1, k0);
    let k = sdiv_v(smul_v(k0, ag2), ssquare_v(ssub_v(g1, k0)));
    let top = smul_v(smul_v(k0_prime, smul_v(padding_v(), ag2)), sadd_v(k0, g1));
    let bottom = smul_v(smul_v(smul_v(smul_v(scube_v(d), padding_v()), g1k0), g1k0), g1k0);
    ssub_v(
        ssub_v(
            ssub_v(
                sadd_v(sdiv_v(smul_v(smul_v(top, d), sum), bottom), smul_v(k, sum)),
                sdiv_v(smul_v(top, d2), bottom),
            ),
            smul_v(smul_v(k, two_v()), d),
        ),
        sdiv_v(d, two_v()),
    )
}

/// The derivative of `f` by the balance at `i`, for the invariant `d`.
#[verifier::opaque]
pub open spec fn df_dx_v(d: nat, x0: Option<SignedView>, x1: Option<SignedView>, a: nat, gamma: nat, i: nat) -> Option<
    SignedView,
> {
    let other = if i == 0 {
        x1
    } else {
        x0
    };
    let d2 = pos_v(times_v(Some(d), Some(d)));
    let k0 = sdiv_v(smul_v(smul_v(x0, x1), four_v()), d2);
    let g1 = gamma1_v(gamma);
    let g1k0 = ssub_v(g1, k0);
    let g1k0_2 = ssquare_v(g1k0);
    let ag2 = a_gamma2_v(a, gamma);
    let k = sdiv_v(smul_v(k0, ag2), g1k0_2);
    let k0_x = smul_v(other, four_v());
    let k_x = sdiv_v(
        smul_v(smul_v(smul_v(k0_x, ag2), sadd_v(k0, g1)), padding_v()),
        smul_v(smul_v(g1k0, pos_v(times_v(Some(PADDING as nat), unsigned_v(d2)))), g1k0_2),
    );
    ssub_v(
        sadd_v(smul_v(sadd_v(smul_v(k_x, sadd_v(x0, x1)), k), pos_v(Some(d))), other),
        smul_v(k_x, d2),
    )
}

/// The function whose root the invariant is.
pub fn f(d: Option<Signed>, x0: Option<Signed>, x1: Option<Signed>, a: Dec256, gamma: Dec256) -> (r:
    Option<Signed>)
    ensures
        sval(r) == f_v(sval(d), sval(x0), sval(x1), a@, gamma@),
{
    proof {
        reveal(f_v);
    }
    let four = pos(Some(Dec256::raw(4 * UNIT)));
    let ag2 = pos(times(Some(a), times(Some(gamma), Some(gamma))));
    let g1 = pos(plus(Some(gamma), Some(Dec256::one())));
    let prod = smul(x0, x1);
    let d2 = ssquare(d);
    let prod4 = smul(prod, four);
    let k = sdiv(smul(prod4, ag2), smul(ssquare(ssub(g1, sdiv(prod4, d2))), d2));
    ssub(ssub(sadd(smul(smul(d, sadd(x0, x1)), k), prod), smul(k, d2)), sdiv(d2, four))
}

/// The derivative of `f` by the invariant.
pub fn df_dd(d: Option<Signed>, x0: Option<Signed>, x1: Option<Signed>, a: Dec256, gamma: Dec256) -> (r:
    Option<Signed>)
    ensures
        sval(r) == df_dd_v(sval(d), sval(x0), sval(x1), a@, gamma@),
{
    proof {
        reveal(df_dd_v);
    }
    let two = pos(Some(Dec256::raw(2 * UNIT)));
    let four = pos(Some(Dec256::raw(4 * UNIT)));
    let padding = pos(Some(Dec256::raw(PADDING)));
    let ag2 = pos(times(Some(a), times(Some(gamma), Some(gamma))));
    let g1 = pos(plus(Some(gamma), Some(Dec256::one())));
    let d2 = ssquare(d);
    let prod4 = smul(smul(x0, x1), four);
    let sum = sadd(x0, x1);
    let k0 = sdiv(prod4, d2);
    let k0_prime = smul(sneg(two), prod4);
    let g1k0 = ssub(g1, k0);
    let k = sdiv(smul(k0, ag2), ssquare(ssub(g1, k0)));
    let top = smul(smul(k0_prime, smul(padding, ag2)), sadd(k0, g1));
    let bottom = smul(smul(smul(smul(scube(d), padding), g1k0), g1k0), g1k0);
    ssub(
        ssub(
            ssub(
                sadd(sdiv(smul(smul(top, d), sum), bottom), smul(k, sum)),
                sdiv(smul(top, d2), bottom),
            ),
            smul(smul(k, two), d),
        ),
        sdiv(d, two),
    )
}

/// The derivative of `f` by the balance at `i`.
pub fn df_dx(d: Dec256, x0: Option<Signed>, x1: Option<Signed>, a: Dec256, gamma: Dec256, i: usize) -> (r:
    Option<Signed>)
    ensures
        sval(r) == df_dx_v(d@, sval(x0), sval(x1), a@, gamma@, i as nat),
{
    proof {
        reveal(df_dx_v);
    }
    let four = pos(Some(Dec256::raw(4 * UNIT)));
    let padding = pos(Some(Dec256::raw(PADDING)));
    let other = if i == 0 {
        x1
    } else {
        x0
    };
    let d2 = pos(times(Some(d), Some(d)));
    let k0 = sdiv(smul(smul(x0, x1), four), d2);
    let g1 = pos(plus(Some(gamma), Some(Dec256::one())));
    let g1k0 = ssub(g1, k0);
    let g1k0_2 = ssquare(g1k0);
    let ag2 = pos(times(Some(a), times(Some(gamma), Some(gamma))));
    let k = sdiv(smul(k0, ag2), g1k0_2);
    let k0_x = smul(other, four);
    let k_x = sdiv(
        smul(smul(smul(k0_x, ag2), sadd(k0, g1)), padding),
        smul(smul(g1k0, pos(times(Some(Dec256::raw(PADDING)), unsigned(d2)))), g1k0_2),
    );
    ssub(sadd(smul(sadd(smul(k_x, sadd(x0, x1)), k), pos(Some(d))), other), smul(k_x, d2))
}

/// What the search for the invariant finds from `d` in `left` more steps.
pub open spec fn newton_d_steps(d: SignedView, x0: nat, x1: nat, a: nat, gamma: nat, left: nat) -> Option<
    nat,
>
    decreases left,
{
    if left == 0 {
        None
    } else {
        let s0 = pos_v(Some(x0));
        let s1 = pos_v(Some(x1));
        let next = ssub_v(
            Some(d),
            sdiv_v(f_v(Some(d), s0, s1, a, gamma), df_dd_v(Some(d), s0, s1, a, gamma)),
        );
        match (next, sdiff_v(next, Some(d))) {
            (Some(n), Some(gap)) => if gap <= TOL {
                unsigned_v(next)
            } else {
                newton_d_steps(n, x0, x1, a, gamma, (left - 1) as nat)
            },
            _ => None,
        }
    }
}

/// The invariant that the solver finds for two balances, or none where a
/// step cannot be computed, the search does not end within its steps, or it
/// ends below zero.
#[verifier::opaque]
pub open spec fn newton_d_value(x0: nat, x1: nat, a: nat, gamma: nat) -> Option<nat> {
    match times_v(Some(2 * unit()), root_v(times_v(Some(x0), Some(x1)))) {
        Some(start) => newton_d_steps(
            SignedView { val: start, neg: false },
            x0,
            x1,
            a,
            gamma,
            MAX_ITER as nat,
        ),
        None => None,
    }
}

/// The search for the invariant of the balances `x0` and `x1`.
pub fn newton_d(x0: Dec256, x1: Dec256, a: Dec256, gamma: Dec256) -> (r: Option<Dec256>)
    ensures
        val(r) == newton_d_value(x0@, x1@, a@, gamma@),
{
    proof {
        reveal(newton_d_value);
    }
    let start = match times(Some(Dec256::raw(2 * UNIT)), root(times(Some(x0), Some(x1)))) {
        Some(s) => s,
        None => {
            return None;
        },
    };
    let s0 = pos(Some(x0));
    let s1 = pos(Some(x1));
    let mut d = Signed { val: start, neg: false };
    let mut left: u8 = MAX_ITER;
    while left > 0
        invariant
            sval(s0) == pos_v(Some(x0@)),
            sval(s1) == pos_v(Some(x1@)),
            newton_d_value(x0@, x1@, a@, gamma@) == newton_d_steps(
                d@,
                x0@,
                x1@,
                a@,
                gamma@,
                left as nat,
            ),
        decreases left,
    {
        let next = ssub(Some(d), sdiv(f(Some(d), s0, s1, a, gamma), df_dd(Some(d), s0, s1, a, gamma)));
        match (next, sdiff(next, Some(d))) {
            (Some(n), Some(gap)) => {
                if gap.le(Dec256::raw(TOL)) {
                    return unsigned(next);
                }
                d = n;
            },
            _ => {
                return None;
            },
        }
        left = left - 1;
    }
    None
}

/// What the search for the balance at `j` finds from `x` in `left` more
/// steps, with the other balance `other` and the invariant `d`.
pub open spec fn newton_y_steps(x: SignedView, other: nat, a: nat, gamma: nat, d: nat, j: nat, left: nat) -> Option<
    nat,
>
    decreases left,
{
    if left == 0 {
        None
    } else {
        let s0 = if j == 0 {
            Some(x)
        } else {
            pos_v(Some(other))
        };
        let s1 = if j == 0 {
            pos_v(Some(other))
        } else {
            Some(x)
        };
        let next = ssub_v(
            Some(x),
            sdiv_v(f_v(pos_v(Some(d)), s0, s1, a, gamma), df_dx_v(d, s0, s1, a, gamma, j)),
        );
        match (next, sdiff_v(next, Some(x))) {
            (Some(n), Some(gap)) => if gap <= TOL {
                unsigned_v(next)
            } else {
                newton_y_steps(n, other, a, gamma, d, j, (left - 1) as nat)
            },
            _ => None,
        }
    }
}

/// The balance at `j` that gives the invariant `d` with the other balance
/// `other`, or none where the solver does not find it. The search starts
/// from `d^2 / (4 * other)`.
#[verifier::opaque]
pub open spec fn newton_y_value(other: nat, a: nat, gamma: nat, d: nat, j: nat) -> Option<nat> {
    match sdiv_v(pos_v(times_v(Some(d), Some(d))), smul_v(pos_v(Some(other)), four_v())) {
        Some(start) => newton_y_steps(start, other, a, gamma, d, j, MAX_ITER as nat),
        None => None,
    }
}

/// The search for the balance at `j` that gives the invariant `d` with the
/// other balance `other`.
pub fn newton_y(other: Dec256, a: Dec256, gamma: Dec256, d: Dec256, j: usize) -> (r: Option<Dec256>)
    ensures
        val(r) == newton_y_value(other@, a@, gamma@, d@, j as nat),
{
    proof {
        reveal(newton_y_value);
    }
    let four = pos(Some(Dec256::raw(4 * UNIT)));
    let fixed = pos(Some(other));
    let start = match sdiv(pos(times(Some(d), Some(d))), smul(fixed, four)) {
        Some(s) => s,
        None => {
            return None;
        },
    };
    let mut x = start;
    let mut left: u8 = MAX_ITER;
    while left > 0
        invariant
            sval(fixed) == pos_v(Some(other@)),
            newton_y_value(other@, a@, gamma@, d@, j as nat) == newton_y_steps(
                x@,
                other@,
                a@,
                gamma@,
                d@,
                j as nat,
                left as nat,
            ),
        decreases left,
    {
        let s0 = if j == 0 {
            Some(x)
        } else {
            fixed
        };
        let s1 = if j == 0 {
            fixed
        } else {
            Some(x)
        };
        let next = ssub(
            Some(x),
            sdiv(f(pos(Some(d)), s0, s1, a, gamma), df_dx(d, s0, s1, a, gamma, j)),
        );
        match (next, sdiff(next, Some(x))) {
            (Some(n), Some(gap)) => {
                if gap.le(Dec256::raw(TOL)) {
                    return unsigned(next);
                }
                x = n;
            },
            _ => {
                return None;
            },
        }
        left = left - 1;
    }
    None
}

/// The invariant of two balances under a pair of curve parameters.
pub open spec fn solved(x0: nat, x1: nat, pair: AmpGamma) -> Option<nat> {
    newton_d_value(x0, x1, pair.amp as nat, pair.gamma as nat)
}

/// The invariant of the balances `xs`, both in units of the first asset,
/// under the given curve parameters. Balances for which the solver finds no
/// invariant, such as a balance of zero, are refused.
pub fn calc_d(xs: &[Dec256; 2], amp_gamma: &AmpGamma) -> (r: Result<Dec256, ContractError>)
    ensures
        match solved(xs[0]@, xs[1]@, *amp_gamma) {
            Some(d) => r matches Ok(v) && v@ == d,
            None => r matches Err(ContractError::ConvergenceFailure),
        },
{
    match newton_d(xs[0], xs[1], Dec256::raw(amp_gamma.amp), Dec256::raw(amp_gamma.gamma)) {
        Some(d) => Ok(d),
        None => Err(ContractError::ConvergenceFailure),
    }
}

/// The balance at `ask_ind` that gives the invariant `d` with the other of
/// the balances `xs`.
pub open spec fn solved_y(x0: nat, x1: nat, d: nat, pair: AmpGamma, ask_ind: nat) -> Option<nat> {
    newton_y_value(
        if ask_ind == 0 {
            x1
        } else {
            x0
        },
        pair.amp as nat,
        pair.gamma as nat,
        d,
        ask_ind,
    )
}

/// The balance at `ask_ind` that gives the invariant `d` with the other of
/// the balances `xs`, both in units of the first asset.
pub fn calc_y(xs: &[Dec256; 2], d: Dec256, amp_gamma: &AmpGamma, ask_ind: usize) -> (r: Result<
    Dec256,
    ContractError,
>)
    requires
        ask_ind < 2,
    ensures
        match solved_y(xs[0]@, xs[1]@, d@, *amp_gamma, ask_ind as nat) {
            Some(y) => r matches Ok(v) && v@ == y,
            None => r matches Err(ContractError::ConvergenceFailure),
        },
{
    let other = if ask_ind == 0 {
        xs[1]
    } else {
        xs[0]
    };
    match newton_y(other, Dec256::raw(amp_gamma.amp), Dec256::raw(amp_gamma.gamma), d, ask_ind) {
        Some(y) => Ok(y),
        None => Err(ContractError::ConvergenceFailure),
    }
}

/// Whether the search for the invariant of `x0` and `x1` settles at `d`
/// from `p`: one step from `p` leads to `d` and moves by no more than the
/// tolerance. The step is the function's value at `p` divided by its slope,
/// so in units of the invariant the equation is met at `p` to within the
/// tolerance.
pub open spec fn settles(p: SignedView, d: nat, x0: nat, x1: nat, a: nat, gamma: nat) -> bool {
    let s0 = pos_v(Some(x0));
    let s1 = pos_v(Some(x1));
    let next = ssub_v(
        Some(p),
        sdiv_v(f_v(Some(p), s0, s1, a, gamma), df_dd_v(Some(p), s0, s1, a, gamma)),
    );
    &&& sdiff_v(next, Some(p)) is Some
    &&& sdiff_v(next, Some(p))->0 <= TOL
    &&& unsigned_v(next) == Some(d)
}

/// What a search finds, it has settled at.
pub proof fn lemma_steps_settle(start: SignedView, x0: nat, x1: nat, a: nat, gamma: nat, left: nat)
    ensures
        newton_d_steps(start, x0, x1, a, gamma, left) matches Some(d) ==> exists|p: SignedView|
            settles(p, d, x0, x1, a, gamma),
    decreases left,
{
    if left > 0 {
        let s0 = pos_v(Some(x0));
        let s1 = pos_v(Some(x1));
        let next = ssub_v(
            Some(start),
            sdiv_v(f_v(Some(start), s0, s1, a, gamma), df_dd_v(Some(start), s0, s1, a, gamma)),
        );
        match (next, sdiff_v(next, Some(start))) {
            (Some(n), Some(gap)) => {
                if gap <= TOL {
                    if unsigned_v(next) is Some {
                        assert(settles(start, unsigned_v(next)->0, x0, x1, a, gamma));
                    }
                } else {
                    lemma_steps_settle(n, x0, x1, a, gamma, (left - 1) as nat);
                }
            },
            _ => {},
        }
    }
}

/// The invariant that the solver returns meets the invariant equation to
/// within the solver's tolerance: it is one step of the search away from a
/// point at which the equation's value, divided by its slope, is no more
/// than the tolerance, and that step is the last the search made.
pub proof fn lemma_invariant_settled(x0: nat, x1: nat, pair: AmpGamma)
    ensures
        solved(x0, x1, pair) matches Some(d) ==> exists|p: SignedView|
            settles(p, d, x0, x1, pair.amp as nat, pair.gamma as nat),
{
    reveal(newton_d_value);
    match times_v(Some(2 * unit()), root_v(times_v(Some(x0), Some(x1)))) {
        Some(start) => {
            lemma_steps_settle(
                SignedView { val: start, neg: false },
                x0,
                x1,
                pair.amp as nat,
                pair.gamma as nat,
                MAX_ITER as nat,
            );
        },
        None => {},
    }
}

} // verus!
